use keep2turtl::backup::turtl_backup_object;
use keep2turtl::json::Json;
use keep2turtl::json_text::{dump, parse_json};
use keep2turtl::note::{convert_keep2turtl, convert_keep_note, ConvertError, NoteDraft};

fn backup() -> Json {
    turtl_backup_object(584, "space1", "board1")
}

fn keep(text: &str) -> Json {
    parse_json(text).expect("valid JSON")
}

fn draft(keep_text: &str) -> NoteDraft {
    convert_keep_note(&backup(), "dir", "/", "note.json", &keep(keep_text), 584, "id1")
        .expect("a converted note")
}

fn note_text(keep_text: &str) -> String {
    dump(&draft(keep_text).note)
}

#[test]
fn text_note_is_converted() {
    let out = note_text(
        r#"{"isPinned":true,"title":"Groceries","textContent":"milk","userEditedTimestampUsec":1650000000000000,"labels":[{"name":"home"},{"name":"food"}]}"#,
    );
    assert_eq!(
        out,
        r#"{"id":"id1","space_id":"space1","board_id":"board1","user_id":584,"has_file":false,"tags":["home","food"],"title":"Groceries","text":"milk","mod":1650000000,"type":"text"}"#
    );
}

#[test]
fn unpinned_note_has_no_board() {
    let out = note_text(r#"{"isPinned":false,"title":"t","textContent":"x"}"#);
    assert_eq!(
        out,
        r#"{"id":"id1","space_id":"space1","board_id":null,"user_id":584,"has_file":false,"tags":[],"title":"t","text":"x","mod":0,"type":"text"}"#
    );
}

#[test]
fn note_without_pinned_flag_goes_to_pinned_board() {
    let out = note_text(r#"{}"#);
    assert_eq!(
        out,
        r#"{"id":"id1","space_id":"space1","board_id":"board1","user_id":584,"has_file":false,"tags":[],"title":null,"text":null,"mod":0,"type":"text"}"#
    );
}

#[test]
fn list_becomes_markdown() {
    let out = note_text(
        r#"{"textContent":"ignored","listContent":[{"text":"eggs","isChecked":true},{"text":"bread","isChecked":false},{"text":7}]}"#,
    );
    assert!(out.contains(r#""text":"- [x] eggs\n- [ ] bread\n- [ ] 7\n""#), "{}", out);
}

#[test]
fn label_without_name_becomes_null_tag() {
    let out = note_text(r#"{"labels":[{"name":"a"},{"other":1}]}"#);
    assert!(out.contains(r#""tags":["a",null]"#), "{}", out);
}

#[test]
fn labels_that_are_not_an_array_give_no_tags() {
    let out = note_text(r#"{"labels":{"name":"a"}}"#);
    assert!(out.contains(r#""tags":[]"#), "{}", out);
}

#[test]
fn timestamp_is_converted_to_seconds() {
    let out = note_text(r#"{"userEditedTimestampUsec":19999999}"#);
    assert!(out.contains(r#""mod":19,"#), "{}", out);
    let out = note_text(r#"{"userEditedTimestampUsec":1650000000123456}"#);
    assert!(out.contains(r#""mod":1650000000,"#), "{}", out);
    let out = note_text(r#"{"userEditedTimestampUsec":-5}"#);
    assert!(out.contains(r#""mod":0,"#), "{}", out);
    let out = note_text(r#"{"userEditedTimestampUsec":"12345678"}"#);
    assert!(out.contains(r#""mod":0,"#), "{}", out);
}

#[test]
fn image_attachment_is_drafted() {
    let d = draft(r#"{"attachments":[{"filePath":"pic.jpeg","mimetype":"image/jpeg"}]}"#);
    let a = d.attachment.expect("an attachment");
    assert_eq!(a.path, "dir/pic.jpeg");
    assert_eq!(a.name.as_deref(), Some("pic.jpeg"));
    assert_eq!(a.mimetype, "image/jpeg");
    assert!(a.is_image);
    assert!(dump(&d.note).ends_with(r#""type":"image"}"#));
}

#[test]
fn other_attachment_is_a_file() {
    let d = draft(r#"{"attachments":[{"filePath":"rec.3gp","mimetype":"audio/3gpp"}]}"#);
    let a = d.attachment.expect("an attachment");
    assert!(!a.is_image);
    assert!(dump(&d.note).ends_with(r#""type":"file"}"#));
}

#[test]
fn multiple_attachments_are_refused() {
    let r = convert_keep_note(
        &backup(),
        "dir",
        "/",
        "n.json",
        &keep(r#"{"attachments":[{"filePath":"a","mimetype":"image/png"},{"filePath":"b","mimetype":"image/png"}]}"#),
        1,
        "id",
    );
    let e = r.expect_err("refused");
    assert!(matches!(e, ConvertError::MultipleAttachments { .. }));
    assert_eq!(e.message(), "Failed to parse ( n.json ) : Has multiple attachments, aborted conversion!");
}

#[test]
fn mimetype_without_single_slash_is_refused() {
    for (text, shown) in [
        (r#"{"attachments":[{"filePath":"a","mimetype":"image"}]}"#, "image"),
        (r#"{"attachments":[{"filePath":"a","mimetype":"a/b/c"}]}"#, "a/b/c"),
        (r#"{"attachments":[{"filePath":"a"}]}"#, "null"),
    ] {
        let r = convert_keep_note(&backup(), "dir", "/", "n.json", &keep(text), 1, "id");
        let e = r.expect_err("refused");
        assert_eq!(
            e.message(),
            format!("Failed to parse ( n.json ) : Has invalid attachment mimetype '{}'", shown)
        );
    }
}

#[test]
fn unparsable_note_is_refused() {
    let r = convert_keep2turtl(&backup(), "dir", "/", "bad.json", "{not json", 1);
    let e = r.expect_err("refused");
    match &e {
        ConvertError::Parse { file_name, reason } => {
            assert_eq!(file_name, "bad.json");
            assert!(!reason.is_empty());
        }
        other => panic!("unexpected {:?}", other),
    }
    assert!(e.message().starts_with("Failed to parse (\"bad.json\") : "));
}

#[test]
fn parsed_note_gets_a_fresh_identifier() {
    let d = convert_keep2turtl(&backup(), "dir", "/", "n.json", r#"{"title":"x"}"#, 9)
        .expect("converted");
    let id = d.note.get("id").as_str().expect("an id").to_string();
    assert_eq!(id.len(), 80);
    assert!(id.chars().all(|c| c.is_ascii_digit() || ('a'..='f').contains(&c)));
    assert_eq!(d.note.get("title").as_str(), Some("x"));
}

#[test]
fn backup_is_not_changed_by_conversion() {
    let b = backup();
    let before = dump(&b);
    let _ = convert_keep_note(&b, "dir", "/", "n", &keep(r#"{"title":"x"}"#), 1, "id");
    assert_eq!(dump(&b), before);
}

#[test]
fn checked_items_scenario() {
    let out = note_text(
        r#"{"textContent":"","listContent":[{"text":"a","isChecked":true},{"text":"b","isChecked":false}]}"#,
    );
    assert_eq!(
        out,
        r#"{"id":"id1","space_id":"space1","board_id":"board1","user_id":584,"has_file":false,"tags":[],"title":null,"text":"- [x] a\n- [ ] b\n","mod":0,"type":"text"}"#
    );
}
