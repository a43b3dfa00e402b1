//! Converting a Google Keep note into a Turtl note.
use vstd::prelude::*;

use crate::ids::{get_uuid, is_random_object_id};
use crate::json::{
    bool_of, field, is_true, item, json_wf, keys_distinct, len_of, lemma_key_position_at,
    lemma_view_entries, lemma_view_items, members_of, nat_number, opt_str, str_of, u64_of,
    view_entries, view_items, Json, JsonView,
};
use crate::json_text::{display_of, display_text, json_parse_result, parse_json};
use crate::text::{
    concat, count_char, count_of, first_index_of, first_token, first_token_of,
    lemma_absent_not_counted, lemma_first_index_bound, same_text,
};

verus! {

/// Why a Keep note could not be converted.
#[derive(Debug)]
pub enum ConvertError {
    /// The note's text is not JSON.
    Parse { file_name: String, reason: String },
    /// The note has more than one attachment, which Turtl cannot hold.
    MultipleAttachments { file_name: String },
    /// The attachment's mimetype does not split into type and subtype at one `/`.
    InvalidMimetype { file_name: String, mimetype: String },
    /// The attachment could not be loaded.
    Attachment { file_name: String, reason: String },
}

/// The text that reports a conversion error.
pub open spec fn error_text(e: ConvertError) -> Seq<char> {
    match e {
        ConvertError::Parse { file_name, reason } => "Failed to parse (\""@ + file_name@ + "\") : "@
            + reason@,
        ConvertError::MultipleAttachments { file_name } => "Failed to parse ( "@ + file_name@
            + " ) : Has multiple attachments, aborted conversion!"@,
        ConvertError::InvalidMimetype { file_name, mimetype } => "Failed to parse ( "@ + file_name@
            + " ) : Has invalid attachment mimetype '"@ + mimetype@ + "'"@,
        ConvertError::Attachment { file_name, reason } => "Failed to parse(\""@ + file_name@
            + "\"): "@ + reason@,
    }
}

impl ConvertError {
    /// The text that reports the error.
    pub fn message(&self) -> (res: String)
        ensures
            res@ == error_text(*self),
    {
        match self {
            ConvertError::Parse { file_name, reason } => {
                let mut r = concat("Failed to parse (\"", file_name.as_str());
                r.append("\") : ");
                r.append(reason.as_str());
                r
            },
            ConvertError::MultipleAttachments { file_name } => {
                let mut r = concat("Failed to parse ( ", file_name.as_str());
                r.append(" ) : Has multiple attachments, aborted conversion!");
                r
            },
            ConvertError::InvalidMimetype { file_name, mimetype } => {
                let mut r = concat("Failed to parse ( ", file_name.as_str());
                r.append(" ) : Has invalid attachment mimetype '");
                r.append(mimetype.as_str());
                r.append("'");
                r
            },
            ConvertError::Attachment { file_name, reason } => {
                let mut r = concat("Failed to parse(\"", file_name.as_str());
                r.append("\"): ");
                r.append(reason.as_str());
                r
            },
        }
    }
}

/// The attachment of a note, as far as the note tells of it.
#[derive(Debug)]
pub struct Attachment {
    /// The file to read: the note's directory, the separator, and the
    /// attachment's `filePath` as text.
    pub path: String,
    /// The attachment's `filePath` when it is a string.
    pub name: Option<String>,
    /// The attachment's `mimetype` as text.
    pub mimetype: String,
    /// Whether the mimetype's type is `image`.
    pub is_image: bool,
}

/// A converted note whose attachment, if it has one, is yet to be read.
#[derive(Debug)]
pub struct NoteDraft {
    pub note: Json,
    pub attachment: Option<Attachment>,
}

pub open spec fn opt_chars(s: Option<String>) -> Option<Seq<char>> {
    match s {
        Some(t) => Some(t@),
        None => None,
    }
}

/// `keep["attachments"]`
pub open spec fn attachments_of(keep: JsonView) -> JsonView {
    field(keep, "attachments"@)
}

/// `keep["attachments"][0]`
pub open spec fn first_attachment(keep: JsonView) -> JsonView {
    item(attachments_of(keep), 0)
}

/// The first attachment's mimetype, as text.
pub open spec fn mimetype_of(keep: JsonView) -> Seq<char> {
    display_of(field(first_attachment(keep), "mimetype"@))
}

/// The first attachment's file path, as text.
pub open spec fn file_path_of(keep: JsonView) -> Seq<char> {
    display_of(field(first_attachment(keep), "filePath"@))
}

/// A mimetype whose type, the part before its first `/`, is `image`.
pub open spec fn is_image_mimetype(mimetype: Seq<char>) -> bool {
    first_token(mimetype, '/') == "image"@
}

/// Turtl's note type: `text` without an attachment, else `image` or `file`
/// by the attachment's mimetype.
pub open spec fn note_type(keep: JsonView) -> Seq<char> {
    if len_of(attachments_of(keep)) == 0 {
        "text"@
    } else if is_image_mimetype(mimetype_of(keep)) {
        "image"@
    } else {
        "file"@
    }
}

/// The space of the backup: the `id` of its first space.
pub open spec fn space_id_of(backup: JsonView) -> JsonView {
    opt_str(str_of(field(item(field(backup, "spaces"@), 0), "id"@)))
}

/// The board of a note: none for a note that is explicitly not pinned, else
/// the backup's first board (the board of pinned notes).
pub open spec fn board_id_of(backup: JsonView, keep: JsonView) -> JsonView {
    if bool_of(field(keep, "isPinned"@)) == Some(false) {
        JsonView::Null
    } else {
        opt_str(str_of(field(item(field(backup, "boards"@), 0), "id"@)))
    }
}

/// The tag of a Keep label: its `name`.
pub open spec fn tag_of(label: JsonView) -> JsonView {
    opt_str(str_of(field(label, "name"@)))
}

/// The tags of a note: one per element of its `labels` array (nothing when
/// `labels` is not an array).
pub open spec fn tags_of(keep: JsonView) -> Seq<JsonView> {
    members_of(field(keep, "labels"@)).map_values(|l: JsonView| tag_of(l))
}

/// The markdown line of a Keep list item: `- [x] text` when checked,
/// `- [ ] text` when not.
pub open spec fn list_line(entry: JsonView) -> Seq<char> {
    "- ["@ + (if is_true(field(entry, "isChecked"@)) {
        "x"@
    } else {
        " "@
    }) + "] "@ + display_of(field(entry, "text"@)) + "\n"@
}

/// The markdown of a Keep list: its lines, one after another.
pub open spec fn list_text(entries: Seq<JsonView>) -> Seq<char>
    decreases entries.len(),
{
    if entries.len() == 0 {
        Seq::empty()
    } else {
        list_text(entries.drop_last()) + list_line(entries.last())
    }
}

/// A mimetype with at least one `/` has the type `image` exactly when it
/// begins with `image/`: `image/png`, `image/gif` and `image/jpeg` alike.
pub proof fn law_image_mimetype(mimetype: Seq<char>)
    requires
        count_of(mimetype, '/') >= 1,
    ensures
        is_image_mimetype(mimetype) <==> (mimetype.len() >= 6 && mimetype.take(6) == "image/"@),
{
    reveal_strlit("image");
    reveal_strlit("image/");
    lemma_first_index_bound(mimetype, '/');
    if first_index_of(mimetype, '/') < 0 {
        lemma_absent_not_counted(mimetype, '/');
    }
    let p = first_index_of(mimetype, '/');
    if mimetype.len() >= 6 && mimetype.take(6) == "image/"@ {
        assert(mimetype.take(6)[5] == '/');
        assert(mimetype[0] == 'i' && mimetype[1] == 'm' && mimetype[2] == 'a' && mimetype[3]
            == 'g' && mimetype[4] == 'e' && mimetype[5] == '/') by {
            assert(mimetype.take(6)[0] == 'i' && mimetype.take(6)[1] == 'm' && mimetype.take(6)[2]
                == 'a' && mimetype.take(6)[3] == 'g' && mimetype.take(6)[4] == 'e');
        }
        assert(p == 5);
        assert(mimetype.take(p) =~= "image"@);
    }
    if first_token(mimetype, '/') == "image"@ {
        assert(p >= 0);
        assert(mimetype.take(p).len() == p);
        assert("image"@.len() == 5);
        assert(p == 5);
        assert(mimetype.take(5)[0] == 'i' && mimetype.take(5)[1] == 'm' && mimetype.take(5)[2]
            == 'a' && mimetype.take(5)[3] == 'g' && mimetype.take(5)[4] == 'e');
        assert(mimetype.take(6) =~= "image/"@);
    }
}

/// Each item of a Keep list gives its own line, after the lines of the
/// items before it: `- [x] ` and its text when its `isChecked` is `true`,
/// `- [ ] ` and its text otherwise, then a line break.
pub proof fn law_list_text_push(entries: Seq<JsonView>, entry: JsonView)
    ensures
        list_text(entries.push(entry)) == list_text(entries) + ("- ["@ + (if field(
            entry,
            "isChecked"@,
        ) == JsonView::Bool(true) {
            "x"@
        } else {
            " "@
        }) + "] "@ + display_of(field(entry, "text"@)) + "\n"@),
{
    assert(entries.push(entry).drop_last() =~= entries);
    assert(entries.push(entry).last() == entry);
}

/// The text of a note: the markdown of its `listContent` when that is not
/// empty, else its `textContent`.
pub open spec fn text_of(keep: JsonView) -> JsonView {
    if len_of(field(keep, "listContent"@)) > 0 {
        JsonView::Str(list_text(members_of(field(keep, "listContent"@))))
    } else {
        opt_str(str_of(field(keep, "textContent"@)))
    }
}

/// The modification time of a note in seconds since the epoch: Keep's
/// `userEditedTimestampUsec`, in microseconds, divided by 10^6 (0 when
/// absent or not a non-negative integer).
pub open spec fn modified_of(keep: JsonView) -> u64 {
    (match u64_of(field(keep, "userEditedTimestampUsec"@)) {
        Some(n) => n,
        None => 0,
    }) / 1000000
}

/// The Turtl note of a Keep note, before its attachment is read.
pub open spec fn turtl_note(backup: JsonView, keep: JsonView, user_id: u32, id: Seq<char>) -> JsonView {
    JsonView::Object(
        seq![
            ("id"@, JsonView::Str(id)),
            ("space_id"@, space_id_of(backup)),
            ("board_id"@, board_id_of(backup, keep)),
            ("user_id"@, nat_number(user_id as u64)),
            ("has_file"@, JsonView::Bool(false)),
            ("tags"@, JsonView::Array(tags_of(keep))),
            ("title"@, opt_str(str_of(field(keep, "title"@)))),
            ("text"@, text_of(keep)),
            ("mod"@, nat_number(modified_of(keep))),
            ("type"@, JsonView::Str(note_type(keep))),
        ],
    )
}

/// The attachment that a note with one attachment asks to read.
pub open spec fn attachment_matches(
    a: Attachment,
    keep: JsonView,
    current_dir: Seq<char>,
    separator: Seq<char>,
) -> bool {
    &&& a.path@ == current_dir + separator + file_path_of(keep)
    &&& opt_chars(a.name) == str_of(field(first_attachment(keep), "filePath"@))
    &&& a.mimetype@ == mimetype_of(keep)
    &&& a.is_image == is_image_mimetype(mimetype_of(keep))
}

/// The outcome of converting a parsed Keep note: an error for more than one
/// attachment, or for one attachment whose mimetype holds other than
/// exactly one `/`; else the Turtl note, and the attachment to read when
/// the note has one.
pub open spec fn conversion_matches(
    res: Result<NoteDraft, ConvertError>,
    backup: JsonView,
    keep: JsonView,
    file_name: Seq<char>,
    user_id: u32,
    id: Seq<char>,
    current_dir: Seq<char>,
    separator: Seq<char>,
) -> bool {
    let n = len_of(attachments_of(keep));
    if n > 1 {
        res matches Err(ConvertError::MultipleAttachments { file_name: f }) && f@ == file_name
    } else if n == 1 && count_of(mimetype_of(keep), '/') != 1 {
        res matches Err(ConvertError::InvalidMimetype { file_name: f, mimetype: m })
            && f@ == file_name && m@ == mimetype_of(keep)
    } else {
        &&& res matches Ok(d)
        &&& d.note@ == turtl_note(backup, keep, user_id, id)
        &&& json_wf(d.note@)
        &&& (n == 0 <==> d.attachment is None)
        &&& d.attachment matches Some(a) ==> attachment_matches(a, keep, current_dir, separator)
    }
}

/// The markdown of a Keep list.
fn list_markdown(entries: &[Json]) -> (res: String)
    ensures
        res@ == list_text(view_items(entries@)),
{
    let ghost items = view_items(entries@);
    proof {
        lemma_view_items(entries@);
        assert(items.take(0) =~= Seq::<JsonView>::empty());
    }
    let mut text = String::new();
    let mut i: usize = 0;
    while i < entries.len()
        invariant
            0 <= i <= entries.len(),
            items == view_items(entries@),
            items.len() == entries@.len(),
            forall|j: int| 0 <= j < entries@.len() ==> #[trigger] items[j] == entries@[j]@,
            text@ == list_text(items.take(i as int)),
        decreases entries.len() - i,
    {
        let entry = &entries[i];
        let mark = if entry.get("isChecked").is_true() {
            "x"
        } else {
            " "
        };
        let mut line = concat("- [", mark);
        line.append("] ");
        let shown = display_text(entry.get("text"));
        line.append(shown.as_str());
        line.append("\n");
        text.append(line.as_str());
        proof {
            assert(items.take(i + 1).drop_last() =~= items.take(i as int));
            assert(items.take(i + 1).last() == entry@);
            assert(text@ =~= list_text(items.take(i as int)) + list_line(entry@));
        }
        i = i + 1;
    }
    proof {
        assert(items.take(entries@.len() as int) =~= items);
    }
    text
}

/// The tags of the labels.
fn label_tags(labels: &[Json]) -> (res: Vec<Json>)
    ensures
        view_items(res@) == view_items(labels@).map_values(|l: JsonView| tag_of(l)),
        forall|i: int| 0 <= i < res@.len() ==> json_wf(#[trigger] res@[i]@),
{
    let ghost items = view_items(labels@);
    proof {
        lemma_view_items(labels@);
    }
    let mut tags: Vec<Json> = Vec::new();
    let mut i: usize = 0;
    while i < labels.len()
        invariant
            0 <= i <= labels.len(),
            items == view_items(labels@),
            items.len() == labels@.len(),
            forall|j: int| 0 <= j < labels@.len() ==> #[trigger] items[j] == labels@[j]@,
            tags@.len() == i,
            forall|j: int| 0 <= j < i ==> #[trigger] tags@[j]@ == tag_of(items[j]),
            forall|j: int| 0 <= j < i ==> json_wf(#[trigger] tags@[j]@),
        decreases labels.len() - i,
    {
        let tag = Json::opt_string(labels[i].get("name").as_str());
        tags.push(tag);
        i = i + 1;
    }
    proof {
        lemma_view_items(tags@);
        let mapped = items.map_values(|l: JsonView| tag_of(l));
        assert forall|j: int| 0 <= j < mapped.len() implies #[trigger] view_items(tags@)[j]
            == mapped[j] by {
            assert(view_items(tags@)[j] == tags@[j]@);
            assert(tags@[j]@ == tag_of(items[j]));
        }
        assert(view_items(tags@) =~= mapped);
    }
    tags
}

proof fn lemma_note_wf(backup: JsonView, keep: JsonView, user_id: u32, id: Seq<char>)
    requires
        forall|i: int|
            0 <= i < tags_of(keep).len() ==> json_wf(#[trigger] tags_of(keep)[i]),
    ensures
        json_wf(turtl_note(backup, keep, user_id, id)),
{
    reveal_strlit("id");
    reveal_strlit("space_id");
    reveal_strlit("board_id");
    reveal_strlit("user_id");
    reveal_strlit("has_file");
    reveal_strlit("tags");
    reveal_strlit("title");
    reveal_strlit("text");
    reveal_strlit("mod");
    reveal_strlit("type");
    assert("id"@[0] == 'i' && "space_id"@[0] == 's' && "board_id"@[0] == 'b' && "user_id"@[0]
        == 'u' && "has_file"@[0] == 'h' && "tags"@[0] == 't' && "title"@[0] == 't'
        && "text"@[0] == 't' && "mod"@[0] == 'm' && "type"@[0] == 't');
    assert("tags"@[1] == 'a' && "title"@[1] == 'i' && "text"@[1] == 'e' && "type"@[1] == 'y');
    let es = turtl_note(backup, keep, user_id, id)->Object_0;
    assert(keys_distinct(es)) by {
        assert forall|i: int, j: int|
            0 <= i < es.len() && 0 <= j < es.len() && i != j implies #[trigger] es[i].0
            != #[trigger] es[j].0 by {
            assert(0 <= i <= 9 && 0 <= j <= 9);
            assert(i == 0 || i == 1 || i == 2 || i == 3 || i == 4 || i == 5 || i == 6 || i == 7
                || i == 8 || i == 9);
            assert(j == 0 || j == 1 || j == 2 || j == 3 || j == 4 || j == 5 || j == 6 || j == 7
                || j == 8 || j == 9);
        }
    }
    assert(json_wf(JsonView::Array(tags_of(keep))));
    assert forall|i: int| 0 <= i < es.len() implies json_wf(#[trigger] es[i].1) by {
        assert(i == 0 || i == 1 || i == 2 || i == 3 || i == 4 || i == 5 || i == 6 || i == 7
            || i == 8 || i == 9);
    }
}

proof fn lemma_note_type_field(backup: JsonView, keep: JsonView, user_id: u32, id: Seq<char>)
    ensures
        field(turtl_note(backup, keep, user_id, id), "type"@) == JsonView::Str(note_type(keep)),
{
    reveal_strlit("id");
    reveal_strlit("space_id");
    reveal_strlit("board_id");
    reveal_strlit("user_id");
    reveal_strlit("has_file");
    reveal_strlit("tags");
    reveal_strlit("title");
    reveal_strlit("text");
    reveal_strlit("mod");
    reveal_strlit("type");
    assert("id"@[0] == 'i' && "space_id"@[0] == 's' && "board_id"@[0] == 'b' && "user_id"@[0]
        == 'u' && "has_file"@[0] == 'h' && "tags"@[0] == 't' && "title"@[0] == 't'
        && "text"@[0] == 't' && "mod"@[0] == 'm' && "type"@[0] == 't');
    assert("tags"@[1] == 'a' && "title"@[1] == 'i' && "text"@[1] == 'e' && "type"@[1] == 'y');
    let es = turtl_note(backup, keep, user_id, id)->Object_0;
    assert forall|j: int| 0 <= j < 9 implies es[j].0 != "type"@ by {
        assert(j == 0 || j == 1 || j == 2 || j == 3 || j == 4 || j == 5 || j == 6 || j == 7
            || j == 8);
    }
    lemma_key_position_at(es, "type"@, 9);
}

/// Converts a parsed Keep note into a Turtl note with the given identifier.
/// `backup` gives the space and the board of pinned notes; it is not changed.
pub fn convert_keep_note(
    backup: &Json,
    current_dir: &str,
    separator: &str,
    file_name: &str,
    keep: &Json,
    user_id: u32,
    id: &str,
) -> (res: Result<NoteDraft, ConvertError>)
    ensures
        conversion_matches(
            res,
            backup@,
            keep@,
            file_name@,
            user_id,
            id@,
            current_dir@,
            separator@,
        ),
        res matches Ok(d) ==> (d.attachment matches Some(a) ==> (a.is_image <==> (
        a.mimetype@.len() >= 6 && a.mimetype@.take(6) == "image/"@))),
        res matches Ok(d) ==> (d.attachment matches Some(a) ==> field(d.note@, "type"@)
            == JsonView::Str(
            if a.is_image {
                "image"@
            } else {
                "file"@
            },
        )),
{
    let attachments = keep.get("attachments");
    let n = attachments.len();
    if n > 1 {
        return Err(ConvertError::MultipleAttachments { file_name: file_name.to_owned() });
    }
    let mut attachment: Option<Attachment> = None;
    let mut kind = "text";
    if n == 1 {
        let first = attachments.at(0);
        let mimetype = display_text(first.get("mimetype"));
        if count_char(mimetype.as_str(), '/') != 1 {
            return Err(
                ConvertError::InvalidMimetype { file_name: file_name.to_owned(), mimetype },
            );
        }
        let is_image = same_text(first_token_of(mimetype.as_str(), '/'), "image");
        proof {
            law_image_mimetype(mimetype@);
        }
        kind = if is_image {
            "image"
        } else {
            "file"
        };
        let file_path = first.get("filePath");
        let shown = display_text(file_path);
        let mut path = concat(current_dir, separator);
        path.append(shown.as_str());
        let name = match file_path.as_str() {
            Some(s) => Some(s.to_owned()),
            None => None,
        };
        attachment = Some(Attachment { path, name, mimetype, is_image });
    }
    let space_id = Json::opt_string(backup.get("spaces").at(0).get("id").as_str());
    let board_id = match keep.get("isPinned").as_bool() {
        Some(false) => Json::Null,
        _ => Json::opt_string(backup.get("boards").at(0).get("id").as_str()),
    };
    let tags = label_tags(keep.get("labels").members());
    let title = Json::opt_string(keep.get("title").as_str());
    let list = keep.get("listContent");
    let text = if list.len() > 0 {
        Json::Str(list_markdown(list.members()))
    } else {
        Json::opt_string(keep.get("textContent").as_str())
    };
    let usec = match keep.get("userEditedTimestampUsec").as_u64() {
        Some(v) => v,
        None => 0,
    };
    let ghost tags_view = view_items(tags@);
    let note = Json::Object(
        vec![
            ("id".to_owned(), Json::string(id)),
            ("space_id".to_owned(), space_id),
            ("board_id".to_owned(), board_id),
            ("user_id".to_owned(), Json::number(user_id as u64)),
            ("has_file".to_owned(), Json::Bool(false)),
            ("tags".to_owned(), Json::Array(tags)),
            ("title".to_owned(), title),
            ("text".to_owned(), text),
            ("mod".to_owned(), Json::number(usec / 1000000)),
            ("type".to_owned(), Json::string(kind)),
        ],
    );
    proof {
        reveal_strlit("text");
        reveal_strlit("image");
        reveal_strlit("file");
        lemma_view_entries(note->Object_0@);
        assert(tags_view =~= tags_of(keep@));
        assert(kind@ == note_type(keep@));
        assert(view_entries(note->Object_0@) =~= turtl_note(
            backup@,
            keep@,
            user_id,
            id@,
        )->Object_0);
        lemma_note_wf(backup@, keep@, user_id, id@);
        lemma_note_type_field(backup@, keep@, user_id, id@);
    }
    Ok(NoteDraft { note, attachment })
}

/// `convert_keep2turtl`: parses the text of a Keep note and converts it into
/// a Turtl note with a fresh random identifier. An attachment is not read
/// here: the draft names the file to read (see `load`), and
/// `convert_keep2turtl_parsefile` adds it once read.
pub fn convert_keep2turtl(
    backup: &Json,
    current_dir: &str,
    separator: &str,
    file_name: &str,
    contents: &str,
    user_id: u32,
) -> (res: Result<NoteDraft, ConvertError>)
    ensures
        match json_parse_result(contents@) {
            Err(reason) => res matches Err(ConvertError::Parse { file_name: f, reason: r })
                && f@ == file_name@ && r@ == reason,
            Ok(keep) => exists|id: Seq<char>|
                is_random_object_id(id) && conversion_matches(
                    res,
                    backup@,
                    keep,
                    file_name@,
                    user_id,
                    id,
                    current_dir@,
                    separator@,
                ),
        },
{
    match parse_json(contents) {
        Err(reason) => Err(ConvertError::Parse { file_name: file_name.to_owned(), reason }),
        Ok(keep) => {
            let id = get_uuid();
            convert_keep_note(backup, current_dir, separator, file_name, &keep, user_id, id.as_str())
        },
    }
}

} // verus!
