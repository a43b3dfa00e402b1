use keep2turtl::attachment::{
    advance_load, convert_keep2turtl_parsefile, finish_note, record_file_member, start_load,
    AttachmentLoad, LoadAction, LoadEvent, LoadOutcome, LoadStage, LoadedFile,
};
use keep2turtl::backup::{add_note, get_turtl_backup_object, turtl_backup_object};
use keep2turtl::encoding::base64_encode;
use keep2turtl::ids::{get_uuid, object_id_from_uuids};
use keep2turtl::json::Json;
use keep2turtl::json_text::{display_text, dump, parse_json};
use keep2turtl::note::Attachment;
use keep2turtl::takeout::{has_json_extension, is_keep_zip_entry, is_zip_path};

fn attachment(path: &str, mimetype: &str, is_image: bool) -> Attachment {
    Attachment {
        path: path.to_string(),
        name: Some("pic.png".to_string()),
        mimetype: mimetype.to_string(),
        is_image,
    }
}

fn open_path(action: &LoadAction) -> &str {
    match action {
        LoadAction::Open { path } => path.as_str(),
        other => panic!("expected Open, got {:?}", other),
    }
}

fn failure(action: LoadAction) -> String {
    match action {
        LoadAction::Failed { reason } => reason,
        other => panic!("expected Failed, got {:?}", other),
    }
}

#[test]
fn backup_skeleton_text() {
    let b = turtl_backup_object(584, "S", "B");
    assert_eq!(
        dump(&b),
        r##"{"body":null,"boards":[{"body":null,"id":"B","user_id":584,"keys":[],"space_id":"S","title":"Pinned notes"}],"files":[],"notes":[],"schema_version":2,"spaces":[{"color":"#d88742","id":"S","user_id":584,"invites":[],"keys":[],"members":[],"title":"Google Keep import"}]}"##
    );
}

#[test]
fn new_backup_shares_its_space_identifier() {
    let b = get_turtl_backup_object(3);
    let space = b.get("spaces").at(0).get("id").as_str().unwrap().to_string();
    let board_space = b.get("boards").at(0).get("space_id").as_str().unwrap().to_string();
    let board = b.get("boards").at(0).get("id").as_str().unwrap().to_string();
    assert_eq!(space, board_space);
    assert_eq!(space.len(), 80);
    assert_eq!(board.len(), 80);
    assert_ne!(space, board);
}

#[test]
fn adding_notes_appends_them() {
    let mut b = turtl_backup_object(1, "S", "B");
    add_note(&mut b, Json::string("n1"));
    add_note(&mut b, Json::string("n2"));
    assert_eq!(b.get("notes").len(), 2);
    assert_eq!(b.get("notes").at(1).as_str(), Some("n2"));
    assert_eq!(b.get("files").len(), 0);
}

#[test]
fn identifiers_are_eighty_hex_digits() {
    let id = get_uuid();
    assert_eq!(id.len(), 80);
    assert!(id.chars().all(|c| c.is_ascii_digit() || ('a'..='f').contains(&c)));
    assert_ne!(id, get_uuid());
    let c: Vec<char> = id.chars().collect();
    assert_eq!(c[12], '4');
    assert_eq!(c[44], '4');
    assert_eq!(c[76], '4');
    assert!("89ab".contains(c[16]));
    assert!("89ab".contains(c[48]));
}

#[test]
fn identifier_from_known_uuids() {
    let a = "01234567-89ab-4def-8123-456789abcdef";
    let b = "fedcba98-7654-4210-8edc-ba9876543210";
    let c = "00000000-1111-4222-a333-444444444444";
    let id = object_id_from_uuids(a, b, c);
    assert_eq!(
        id,
        "0123456789ab4def8123456789abcdeffedcba98765442108edcba98765432100000000011114222"
    );
}

#[test]
fn base64_of_bytes() {
    assert_eq!(base64_encode(b"hello"), "aGVsbG8=");
    assert_eq!(base64_encode(b"hell"), "aGVsbA==");
    assert_eq!(base64_encode(b"hel"), "aGVs");
    assert_eq!(base64_encode(b""), "");
    assert_eq!(base64_encode(&[0xfb, 0xff]), "+/8=");
}

#[test]
fn load_opens_then_retries_with_jpg() {
    let (state, action) = start_load(&attachment("dir/pic.png", "image/png", true));
    assert_eq!(open_path(&action), "dir/pic.png");
    let (state, action) = advance_load(state, LoadEvent::OpenFailed { error: "gone".into() });
    assert_eq!(state.stage, LoadStage::Retrying);
    assert!(state.changed_extension);
    assert_eq!(open_path(&action), "dir/pic.jpg");
    let (_, action) = advance_load(state, LoadEvent::OpenFailed { error: "still gone".into() });
    assert_eq!(
        failure(action),
        "Invalid attachment: \"dir/pic.jpg\" / still gone (changed extension \"png\" to \".jpg\")"
    );
}

#[test]
fn load_without_extension_cannot_retry() {
    let (state, _) = start_load(&attachment("dir/pic", "image/png", true));
    let (_, action) = advance_load(state, LoadEvent::OpenFailed { error: "gone".into() });
    assert!(matches!(action, LoadAction::NoExtension));
}

#[test]
fn load_reads_and_measures_an_image() {
    let (state, _) = start_load(&attachment("p.png", "image/png", true));
    let (state, action) = advance_load(state, LoadEvent::Opened);
    assert!(matches!(action, LoadAction::Inspect));
    let (state, action) = advance_load(state, LoadEvent::Inspected { is_file: true, size: 3 });
    assert!(matches!(action, LoadAction::ReadAll { size: 3 }));
    let (state, action) = advance_load(state, LoadEvent::ReadDone { data: vec![1, 2, 3] });
    assert!(matches!(action, LoadAction::Measure { ref path } if path == "p.png"));
    let (_, action) = advance_load(state, LoadEvent::Measured { height: 10, width: 20 });
    match action {
        LoadAction::Finished(f) => {
            assert!(!f.changed_extension);
            assert_eq!(f.size, 3);
            assert_eq!(f.data, vec![1, 2, 3]);
            assert_eq!(f.dimensions, Some((10, 20)));
        }
        other => panic!("unexpected {:?}", other),
    }
}

#[test]
fn load_of_a_plain_file_skips_measuring() {
    let (state, _) = start_load(&attachment("a.txt", "text/plain", false));
    let (state, _) = advance_load(state, LoadEvent::Opened);
    let (state, _) = advance_load(state, LoadEvent::Inspected { is_file: true, size: 1 });
    let (_, action) = advance_load(state, LoadEvent::ReadDone { data: vec![9] });
    assert!(matches!(action, LoadAction::Finished(LoadedFile { dimensions: None, .. })));
}

#[test]
fn load_failures_have_reasons() {
    let (state, _) = start_load(&attachment("d", "image/png", true));
    let (state, _) = advance_load(state, LoadEvent::Opened);
    let (_, action) = advance_load(state, LoadEvent::Inspected { is_file: false, size: 0 });
    assert_eq!(failure(action), "Invalid attachment \"d\" / Not a file");

    let (state, _) = start_load(&attachment("f", "image/png", true));
    let (state, _) = advance_load(state, LoadEvent::Opened);
    let (_, action) = advance_load(state, LoadEvent::InspectFailed { error: "io".into() });
    assert_eq!(failure(action), "io");

    let (state, _) = start_load(&attachment("f", "image/png", true));
    let (state, _) = advance_load(state, LoadEvent::Opened);
    let (state, _) = advance_load(state, LoadEvent::Inspected { is_file: true, size: 0 });
    let (_, action) = advance_load(state, LoadEvent::ReadFailed { error: "eof".into() });
    assert_eq!(failure(action), "Failed to read into memory: \"f\" / eof");

    let (state, _) = start_load(&attachment("f", "image/png", true));
    let (state, _) = advance_load(state, LoadEvent::Opened);
    let (state, _) = advance_load(state, LoadEvent::Inspected { is_file: true, size: 0 });
    let (state, _) = advance_load(state, LoadEvent::ReadDone { data: vec![] });
    let (_, action) = advance_load(state, LoadEvent::MeasureFailed { error: "bad".into() });
    match action {
        LoadAction::ImageFailed { reason, file } => {
            assert_eq!(reason, "Invalid image: \"f\" / bad");
            assert_eq!(file.dimensions, None);
        }
        other => panic!("unexpected {:?}", other),
    }
}

#[test]
fn unexpected_event_repeats_the_pending_action() {
    let (state, _) = start_load(&attachment("x.png", "image/png", true));
    let (state, action) = advance_load(state, LoadEvent::ReadDone { data: vec![1] });
    assert_eq!(state.stage, LoadStage::Opening);
    assert_eq!(open_path(&action), "x.png");
    let _: AttachmentLoad = state;
}

#[test]
fn read_attachment_is_recorded() {
    let mut b = turtl_backup_object(1, "S", "B");
    let mut note = parse_json(r#"{"id":"N1","type":"image"}"#).unwrap();
    let a = attachment("d/pic.png", "image/png", true);
    let f = LoadedFile {
        changed_extension: true,
        size: 5,
        data: b"hello".to_vec(),
        dimensions: Some((4, 3)),
    };
    convert_keep2turtl_parsefile(&mut b, &mut note, &a, &f);
    assert_eq!(
        dump(&note),
        r#"{"id":"N1","type":"image","file":{"name":"pic.png","size":5,"type":"image/jpg","id":"N1","meta":{"height":4,"width":3}}}"#
    );
    assert_eq!(
        dump(b.get("files")),
        r#"[{"body":null,"data":"aGVsbG8=","id":"N1"}]"#
    );
}

#[test]
fn unchanged_extension_keeps_mimetype() {
    let mut b = turtl_backup_object(1, "S", "B");
    let mut note = parse_json(r#"{"id":"N2"}"#).unwrap();
    let a = Attachment { path: "x".into(), name: None, mimetype: "audio/3gpp".into(), is_image: false };
    let f = LoadedFile { changed_extension: false, size: 0, data: vec![], dimensions: None };
    convert_keep2turtl_parsefile(&mut b, &mut note, &a, &f);
    assert_eq!(
        dump(&note),
        r#"{"id":"N2","file":{"name":null,"size":0,"type":"audio/3gpp","id":"N2"}}"#
    );
}

#[test]
fn keep_zip_entries() {
    assert!(is_keep_zip_entry("Takeout/Keep/note.json"));
    assert!(!is_keep_zip_entry("Takeout/Keep/.json"));
    assert!(!is_keep_zip_entry("Takeout/Keep/note.html"));
    assert!(!is_keep_zip_entry("Takeout/Drive/note.json"));
    assert!(!is_keep_zip_entry("x/Takeout/Keep/note.json"));
    assert!(!is_keep_zip_entry("Takeout/Keep/a\nb.json"));
    assert!(is_keep_zip_entry("Takeout/Keep/a.json.json"));
    assert!(is_keep_zip_entry("Takeout/Keep/Labels/x.json"));
}

#[test]
fn json_extension_of_paths() {
    assert!(has_json_extension("Keep/a.json"));
    assert!(has_json_extension(".json"));
    assert!(!has_json_extension("json"));
    assert!(!has_json_extension("Keep/notejson"));
    assert!(has_json_extension("Keep/é.json"));
    assert!(!has_json_extension("a.jso"));
    assert!(!has_json_extension("a.JSON"));
    assert!(!has_json_extension("abc"));
}

#[test]
fn zip_paths() {
    assert!(is_zip_path("takeout.zip"));
    assert!(is_zip_path("a.b/takeout.zip"));
    assert!(!is_zip_path("takeout"));
    assert!(!is_zip_path("takeout.zip/Keep"));
    assert!(!is_zip_path("takeout.ZIP"));
}

#[test]
fn display_of_values() {
    let v = parse_json(r#"[ "s", null, true, 12, 1.5, [1, "a"], {"k": false} ]"#).unwrap();
    assert_eq!(display_text(v.at(0)), "s");
    assert_eq!(display_text(v.at(1)), "null");
    assert_eq!(display_text(v.at(2)), "true");
    assert_eq!(display_text(v.at(3)), "12");
    assert_eq!(display_text(v.at(4)), "1.5");
    assert_eq!(display_text(v.at(5)), r#"[1,"a"]"#);
    assert_eq!(display_text(v.at(6)), r#"{"k":false}"#);
    assert_eq!(display_text(v.at(7)), "null");
}

#[test]
fn unmeasured_image_is_recorded_without_meta() {
    let mut note = parse_json(r#"{"id":"N3"}"#).unwrap();
    let a = attachment("d/pic.png", "image/png", true);
    let f = LoadedFile { changed_extension: false, size: 2, data: vec![1, 2], dimensions: None };
    record_file_member(&mut note, &a, &f);
    assert_eq!(
        dump(&note),
        r#"{"id":"N3","file":{"name":"pic.png","size":2,"type":"image/png","id":"N3"}}"#
    );
}

#[test]
fn finishing_a_note_with_a_read_attachment() {
    let mut b = turtl_backup_object(1, "S", "B");
    let mut note = parse_json(r#"{"id":"N4"}"#).unwrap();
    let a = attachment("p.png", "image/png", true);
    let f = LoadedFile { changed_extension: false, size: 1, data: vec![0], dimensions: Some((2, 3)) };
    assert!(finish_note(&mut b, &mut note, &a, "n.json", LoadOutcome::Loaded(f)).is_ok());
    assert_eq!(
        dump(&note),
        r#"{"id":"N4","file":{"name":"pic.png","size":1,"type":"image/png","id":"N4","meta":{"height":2,"width":3}}}"#
    );
    assert_eq!(dump(b.get("files")), r#"[{"body":null,"data":"AA==","id":"N4"}]"#);
}

#[test]
fn failed_reading_leaves_the_backup_alone() {
    let mut b = turtl_backup_object(1, "S", "B");
    let before = dump(&b);
    let mut note = parse_json(r#"{"id":"N5"}"#).unwrap();
    let a = attachment("p.png", "image/png", true);
    let e = finish_note(&mut b, &mut note, &a, "n.json", LoadOutcome::Failed("gone".into()))
        .expect_err("failed");
    assert_eq!(e.message(), "Failed to parse(\"n.json\"): gone");
    assert_eq!(dump(&b), before);
    assert_eq!(dump(&note), r#"{"id":"N5"}"#);

    let f = LoadedFile { changed_extension: false, size: 1, data: vec![0], dimensions: None };
    let e = finish_note(&mut b, &mut note, &a, "n.json", LoadOutcome::ImageFailed("bad".into(), f))
        .expect_err("failed");
    assert_eq!(e.message(), "Failed to parse(\"n.json\"): bad");
    assert_eq!(dump(&b), before);
    assert_eq!(
        dump(&note),
        r#"{"id":"N5","file":{"name":"pic.png","size":1,"type":"image/png","id":"N5"}}"#
    );
}
