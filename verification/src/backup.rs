//! The Turtl backup object: its skeleton, and the notes added to it.
use vstd::prelude::*;

use crate::attachment::{file_data_entry, file_entry, LoadedFile};
use crate::ids::{get_uuid, is_random_object_id};
use crate::json::{
    field, item, json_wf, keys_distinct, law_field_after_write, law_field_other_after_write,
    lemma_key_position_at, lemma_view_entries, lemma_view_items, nat_number, opt_str, str_of,
    view_entries, view_items, with_field, Json, JsonView,
};
use crate::note::{space_id_of, turtl_note, Attachment};

verus! {

/// The empty array.
pub open spec fn no_items() -> JsonView {
    JsonView::Array(Seq::empty())
}

/// The board of pinned notes in a new backup.
pub open spec fn pinned_board(user_id: u32, space_id: Seq<char>, board_id: Seq<char>) -> JsonView {
    JsonView::Object(
        seq![
            ("body"@, JsonView::Null),
            ("id"@, JsonView::Str(board_id)),
            ("user_id"@, nat_number(user_id as u64)),
            ("keys"@, no_items()),
            ("space_id"@, JsonView::Str(space_id)),
            ("title"@, JsonView::Str("Pinned notes"@)),
        ],
    )
}

/// The space that a new backup imports into.
pub open spec fn import_space(user_id: u32, space_id: Seq<char>) -> JsonView {
    JsonView::Object(
        seq![
            ("color"@, JsonView::Str("#d88742"@)),
            ("id"@, JsonView::Str(space_id)),
            ("user_id"@, nat_number(user_id as u64)),
            ("invites"@, no_items()),
            ("keys"@, no_items()),
            ("members"@, no_items()),
            ("title"@, JsonView::Str("Google Keep import"@)),
        ],
    )
}

/// A new Turtl backup (schema version 2): one space, one board of pinned
/// notes in that space, and no files or notes yet.
pub open spec fn backup_skeleton(user_id: u32, space_id: Seq<char>, board_id: Seq<char>) -> JsonView {
    JsonView::Object(
        seq![
            ("body"@, JsonView::Null),
            ("boards"@, JsonView::Array(seq![pinned_board(user_id, space_id, board_id)])),
            ("files"@, no_items()),
            ("notes"@, no_items()),
            ("schema_version"@, nat_number(2)),
            ("spaces"@, JsonView::Array(seq![import_space(user_id, space_id)])),
        ],
    )
}

/// The backup after one more note: the note is appended to `notes`.
pub open spec fn with_note(backup: JsonView, note: JsonView) -> JsonView {
    with_field(backup, "notes"@, JsonView::Array(field(backup, "notes"@)->Array_0.push(note)))
}

fn entry(key: &str, value: Json) -> (res: (String, Json))
    ensures
        res.0@ == key@,
        res.1 == value,
{
    (key.to_owned(), value)
}

fn empty_items() -> (res: Json)
    ensures
        res@ == no_items(),
{
    Json::empty_array()
}

/// A new backup with the given space and board identifiers.
pub fn turtl_backup_object(user_id: u32, space_id: &str, board_id: &str) -> (res: Json)
    ensures
        res@ == backup_skeleton(user_id, space_id@, board_id@),
        json_wf(res@),
        backup_consistent(res@, user_id),
{
    proof {
        law_new_backup_consistent(user_id, space_id@, board_id@);
    }
    let board = Json::Object(
        vec![
            entry("body", Json::Null),
            entry("id", Json::string(board_id)),
            entry("user_id", Json::number(user_id as u64)),
            entry("keys", empty_items()),
            entry("space_id", Json::string(space_id)),
            entry("title", Json::string("Pinned notes")),
        ],
    );
    let space = Json::Object(
        vec![
            entry("color", Json::string("#d88742")),
            entry("id", Json::string(space_id)),
            entry("user_id", Json::number(user_id as u64)),
            entry("invites", empty_items()),
            entry("keys", empty_items()),
            entry("members", empty_items()),
            entry("title", Json::string("Google Keep import")),
        ],
    );
    let ghost board_view = board@;
    let ghost space_view = space@;
    proof {
        let be = board->Object_0@;
        let se = space->Object_0@;
        lemma_view_entries(be);
        lemma_view_entries(se);
        assert(view_entries(be) =~= pinned_board(user_id, space_id@, board_id@)->Object_0);
        assert(view_entries(se) =~= import_space(user_id, space_id@)->Object_0);
    }
    let boards = vec![board];
    let spaces = vec![space];
    proof {
        lemma_view_items(boards@);
        lemma_view_items(spaces@);
        assert(view_items(boards@) =~= seq![board_view]);
        assert(view_items(spaces@) =~= seq![space_view]);
    }
    let res = Json::Object(
        vec![
            entry("body", Json::Null),
            entry("boards", Json::Array(boards)),
            entry("files", empty_items()),
            entry("notes", empty_items()),
            entry("schema_version", Json::number(2)),
            entry("spaces", Json::Array(spaces)),
        ],
    );
    proof {
        lemma_view_entries(res->Object_0@);
        assert(view_entries(res->Object_0@) =~= backup_skeleton(user_id, space_id@, board_id@)->Object_0);
        lemma_skeleton_wf(user_id, space_id@, board_id@);
    }
    res
}

proof fn lemma_skeleton_wf(user_id: u32, space_id: Seq<char>, board_id: Seq<char>)
    ensures
        json_wf(backup_skeleton(user_id, space_id, board_id)),
{
    reveal_strlit("body");
    reveal_strlit("id");
    reveal_strlit("user_id");
    reveal_strlit("keys");
    reveal_strlit("space_id");
    reveal_strlit("title");
    reveal_strlit("color");
    reveal_strlit("invites");
    reveal_strlit("members");
    reveal_strlit("boards");
    reveal_strlit("files");
    reveal_strlit("notes");
    reveal_strlit("schema_version");
    reveal_strlit("spaces");
    assert("body"@[0] == 'b' && "id"@[0] == 'i' && "user_id"@[0] == 'u' && "keys"@[0] == 'k'
        && "space_id"@[0] == 's' && "title"@[0] == 't' && "color"@[0] == 'c' && "invites"@[0]
        == 'i' && "members"@[0] == 'm' && "boards"@[0] == 'b' && "files"@[0] == 'f'
        && "notes"@[0] == 'n' && "schema_version"@[0] == 's' && "spaces"@[0] == 's');
    assert("id"@.len() == 2 && "invites"@.len() == 7 && "body"@.len() == 4 && "boards"@.len() == 6
        && "schema_version"@.len() == 14 && "spaces"@.len() == 6);
    let b = pinned_board(user_id, space_id, board_id);
    let s = import_space(user_id, space_id);
    let top = backup_skeleton(user_id, space_id, board_id);
    let be = b->Object_0;
    let se = s->Object_0;
    let te = top->Object_0;
    assert(keys_distinct(be)) by {
        assert forall|i: int, j: int|
            0 <= i < be.len() && 0 <= j < be.len() && i != j implies #[trigger] be[i].0
            != #[trigger] be[j].0 by {
            assert(i == 0 || i == 1 || i == 2 || i == 3 || i == 4 || i == 5);
            assert(j == 0 || j == 1 || j == 2 || j == 3 || j == 4 || j == 5);
        }
    }
    assert(keys_distinct(se)) by {
        assert forall|i: int, j: int|
            0 <= i < se.len() && 0 <= j < se.len() && i != j implies #[trigger] se[i].0
            != #[trigger] se[j].0 by {
            assert(i == 0 || i == 1 || i == 2 || i == 3 || i == 4 || i == 5 || i == 6);
            assert(j == 0 || j == 1 || j == 2 || j == 3 || j == 4 || j == 5 || j == 6);
        }
    }
    assert(keys_distinct(te)) by {
        assert forall|i: int, j: int|
            0 <= i < te.len() && 0 <= j < te.len() && i != j implies #[trigger] te[i].0
            != #[trigger] te[j].0 by {
            assert(i == 0 || i == 1 || i == 2 || i == 3 || i == 4 || i == 5);
            assert(j == 0 || j == 1 || j == 2 || j == 3 || j == 4 || j == 5);
        }
    }
    assert(json_wf(no_items()));
    assert forall|i: int| 0 <= i < be.len() implies json_wf(#[trigger] be[i].1) by {
        assert(i == 0 || i == 1 || i == 2 || i == 3 || i == 4 || i == 5);
    }
    assert forall|i: int| 0 <= i < se.len() implies json_wf(#[trigger] se[i].1) by {
        assert(i == 0 || i == 1 || i == 2 || i == 3 || i == 4 || i == 5 || i == 6);
    }
    assert(json_wf(b));
    assert(json_wf(s));
    assert(json_wf(JsonView::Array(seq![b])));
    assert(json_wf(JsonView::Array(seq![s])));
    assert forall|i: int| 0 <= i < te.len() implies json_wf(#[trigger] te[i].1) by {
        assert(i == 0 || i == 1 || i == 2 || i == 3 || i == 4 || i == 5);
    }
}

/// `get_turtl_backup_object`: a new backup whose space and board have fresh
/// random identifiers.
pub fn get_turtl_backup_object(user_id: u32) -> (res: Json)
    ensures
        json_wf(res@),
        backup_consistent(res@, user_id),
        exists|space_id: Seq<char>, board_id: Seq<char>|
            is_random_object_id(space_id) && is_random_object_id(board_id) && res@ == backup_skeleton(
                user_id,
                space_id,
                board_id,
            ),
{
    let space_id = get_uuid();
    let board_id = get_uuid();
    turtl_backup_object(user_id, space_id.as_str(), board_id.as_str())
}

/// Appends a converted note to the backup's `notes`.
pub fn add_note(backup: &mut Json, note: Json)
    requires
        old(backup)@ is Object,
        field(old(backup)@, "notes"@) is Array,
    ensures
        final(backup)@ == with_note(old(backup)@, note@),
        json_wf(old(backup)@) && json_wf(note@) ==> json_wf(final(backup)@),
{
    backup.push_to_field("notes", note);
}

/// Adding a note grows `notes` by exactly that note and leaves every other
/// member of the backup as it was.
pub proof fn law_add_note(backup: JsonView, note: JsonView, other: Seq<char>)
    requires
        backup is Object,
        field(backup, "notes"@) is Array,
        other != "notes"@,
    ensures
        field(with_note(backup, note), "notes"@)->Array_0 == field(backup, "notes"@)->Array_0.push(
            note,
        ),
        field(with_note(backup, note), other) == field(backup, other),
{
    let notes = JsonView::Array(field(backup, "notes"@)->Array_0.push(note));
    law_field_after_write(backup, "notes"@, notes);
    law_field_other_after_write(backup, "notes"@, other, notes);
}

/// A note that records an attachment: its `file` member is an object.
pub open spec fn has_file_member(note: JsonView) -> bool {
    field(note, "file"@) is Object
}

/// The identifiers of the notes that record an attachment, in order.
pub open spec fn file_note_ids(notes: Seq<JsonView>) -> Seq<JsonView>
    decreases notes.len(),
{
    if notes.len() == 0 {
        Seq::empty()
    } else if has_file_member(notes.last()) {
        file_note_ids(notes.drop_last()).push(field(notes.last(), "id"@))
    } else {
        file_note_ids(notes.drop_last())
    }
}

/// The identifiers under which files are stored, in order.
pub open spec fn stored_ids(files: Seq<JsonView>) -> Seq<JsonView> {
    files.map_values(|e: JsonView| field(e, "id"@))
}

/// A backup being filled for one user: it has `notes` and `files` arrays,
/// every note belongs to the user and to the backup's space, and the backup
/// stores exactly one file per note that records an attachment: the k-th
/// stored file carries the identifier of the k-th such note.
pub open spec fn backup_consistent(b: JsonView, user_id: u32) -> bool {
    let notes = field(b, "notes"@)->Array_0;
    &&& b is Object
    &&& field(b, "notes"@) is Array
    &&& field(b, "files"@) is Array
    &&& forall|i: int|
        0 <= i < notes.len() ==> field(#[trigger] notes[i], "user_id"@) == nat_number(
            user_id as u64,
        ) && field(notes[i], "space_id"@) == space_id_of(b)
    &&& stored_ids(field(b, "files"@)->Array_0) == file_note_ids(notes)
}

proof fn lemma_key_facts()
    ensures
        "notes"@ != "files"@,
        "notes"@ != "spaces"@,
        "files"@ != "spaces"@,
        "file"@ != "user_id"@,
        "file"@ != "space_id"@,
        "file"@ != "id"@,
{
    reveal_strlit("id");
    reveal_strlit("notes");
    reveal_strlit("files");
    reveal_strlit("spaces");
    reveal_strlit("file");
    reveal_strlit("user_id");
    reveal_strlit("space_id");
    assert("notes"@[0] == 'n' && "files"@[0] == 'f' && "spaces"@[0] == 's' && "user_id"@[0]
        == 'u' && "space_id"@[0] == 's');
    assert("files"@.len() == 5 && "file"@.len() == 4 && "spaces"@.len() == 6 && "space_id"@.len()
        == 8);
}

/// What the members of a converted note are where the backup looks at them.
proof fn lemma_turtl_note_members(b: JsonView, keep: JsonView, user_id: u32, id: Seq<char>)
    ensures
        turtl_note(b, keep, user_id, id) is Object,
        field(turtl_note(b, keep, user_id, id), "id"@) == JsonView::Str(id),
        field(turtl_note(b, keep, user_id, id), "space_id"@) == space_id_of(b),
        field(turtl_note(b, keep, user_id, id), "user_id"@) == nat_number(user_id as u64),
        field(turtl_note(b, keep, user_id, id), "file"@) == JsonView::Null,
{
    reveal_strlit("id");
    reveal_strlit("space_id");
    reveal_strlit("board_id");
    reveal_strlit("user_id");
    reveal_strlit("has_file");
    reveal_strlit("tags");
    reveal_strlit("title");
    reveal_strlit("text");
    reveal_strlit("mod");
    reveal_strlit("type");
    reveal_strlit("file");
    assert("id"@[0] == 'i' && "space_id"@[0] == 's' && "board_id"@[0] == 'b' && "user_id"@[0]
        == 'u' && "has_file"@[0] == 'h' && "tags"@[0] == 't' && "title"@[0] == 't'
        && "text"@[0] == 't' && "mod"@[0] == 'm' && "type"@[0] == 't' && "file"@[0] == 'f');
    let es = turtl_note(b, keep, user_id, id)->Object_0;
    lemma_key_position_at(es, "id"@, 0);
    lemma_key_position_at(es, "space_id"@, 1);
    lemma_key_position_at(es, "user_id"@, 3);
    assert forall|j: int| 0 <= j < es.len() implies es[j].0 != "file"@ by {
        assert(j == 0 || j == 1 || j == 2 || j == 3 || j == 4 || j == 5 || j == 6 || j == 7
            || j == 8 || j == 9);
    }
    lemma_key_position_at(es, "file"@, 10);
}

/// What adding a note changes of a backup: its `notes` only.
proof fn lemma_with_note_members(b: JsonView, note: JsonView)
    requires
        b is Object,
        field(b, "notes"@) is Array,
    ensures
        with_note(b, note) is Object,
        field(with_note(b, note), "notes"@) == JsonView::Array(
            field(b, "notes"@)->Array_0.push(note),
        ),
        field(with_note(b, note), "files"@) == field(b, "files"@),
        space_id_of(with_note(b, note)) == space_id_of(b),
{
    lemma_key_facts();
    let notes = JsonView::Array(field(b, "notes"@)->Array_0.push(note));
    law_field_after_write(b, "notes"@, notes);
    law_field_other_after_write(b, "notes"@, "files"@, notes);
    law_field_other_after_write(b, "notes"@, "spaces"@, notes);
}

proof fn lemma_ids_push(notes: Seq<JsonView>, note: JsonView)
    ensures
        file_note_ids(notes.push(note)) == if has_file_member(note) {
            file_note_ids(notes).push(field(note, "id"@))
        } else {
            file_note_ids(notes)
        },
{
    assert(notes.push(note).drop_last() =~= notes);
}

proof fn lemma_stored_ids_push(files: Seq<JsonView>, entry: JsonView)
    ensures
        stored_ids(files.push(entry)) == stored_ids(files).push(field(entry, "id"@)),
{
    assert(stored_ids(files.push(entry)) =~= stored_ids(files).push(field(entry, "id"@)));
}

proof fn lemma_add_consistent(b: JsonView, user_id: u32, note: JsonView)
    requires
        backup_consistent(b, user_id),
        field(note, "user_id"@) == nat_number(user_id as u64),
        field(note, "space_id"@) == space_id_of(b),
    ensures
        field(with_note(b, note), "notes"@)->Array_0 == field(b, "notes"@)->Array_0.push(note),
        space_id_of(with_note(b, note)) == space_id_of(b),
        with_note(b, note) is Object,
        field(with_note(b, note), "files"@) == field(b, "files"@),
        forall|i: int|
            0 <= i < field(with_note(b, note), "notes"@)->Array_0.len() ==> field(
                #[trigger] field(with_note(b, note), "notes"@)->Array_0[i],
                "user_id"@,
            ) == nat_number(user_id as u64) && field(
                field(with_note(b, note), "notes"@)->Array_0[i],
                "space_id"@,
            ) == space_id_of(with_note(b, note)),
{
    lemma_with_note_members(b, note);
    let old_notes = field(b, "notes"@)->Array_0;
    let new_notes = old_notes.push(note);
    assert forall|i: int| 0 <= i < new_notes.len() implies field(#[trigger] new_notes[i], "user_id"@)
        == nat_number(user_id as u64) && field(new_notes[i], "space_id"@) == space_id_of(b) by {
        if i < old_notes.len() {
            assert(new_notes[i] == old_notes[i]);
        }
    }
}

/// A new backup is consistent for its user.
pub proof fn law_new_backup_consistent(user_id: u32, space_id: Seq<char>, board_id: Seq<char>)
    ensures
        backup_consistent(backup_skeleton(user_id, space_id, board_id), user_id),
{
    reveal_strlit("body");
    reveal_strlit("boards");
    reveal_strlit("files");
    reveal_strlit("notes");
    assert("body"@[0] == 'b' && "boards"@[0] == 'b' && "files"@[0] == 'f' && "notes"@[0] == 'n');
    assert("body"@.len() == 4 && "boards"@.len() == 6);
    let es = backup_skeleton(user_id, space_id, board_id)->Object_0;
    lemma_key_position_at(es, "files"@, 2);
    lemma_key_position_at(es, "notes"@, 3);
    assert(stored_ids(Seq::<JsonView>::empty()) =~= file_note_ids(Seq::<JsonView>::empty()));
}

/// Adding a converted note whose attachment, if any, was not recorded keeps
/// a backup consistent.
pub proof fn law_add_converted_note(b: JsonView, keep: JsonView, user_id: u32, id: Seq<char>)
    requires
        backup_consistent(b, user_id),
    ensures
        backup_consistent(with_note(b, turtl_note(b, keep, user_id, id)), user_id),
{
    let note = turtl_note(b, keep, user_id, id);
    lemma_turtl_note_members(b, keep, user_id, id);
    lemma_add_consistent(b, user_id, note);
    lemma_with_note_members(b, note);
    lemma_ids_push(field(b, "notes"@)->Array_0, note);
    assert(!has_file_member(note));
    let after = with_note(b, note);
    assert(field(after, "notes"@) is Array);
    assert(field(after, "files"@) is Array);
    assert(stored_ids(field(after, "files"@)->Array_0) == file_note_ids(
        field(after, "notes"@)->Array_0,
    ));
}

/// Recording a read attachment of a converted note (in the note and in the
/// backup's `files`) and then adding the note keeps a backup consistent:
/// the stored file and the note's `file` member come together.
pub proof fn law_add_note_with_attachment(
    b: JsonView,
    keep: JsonView,
    user_id: u32,
    id: Seq<char>,
    a: Attachment,
    f: LoadedFile,
)
    requires
        backup_consistent(b, user_id),
    ensures
        ({
            let note = turtl_note(b, keep, user_id, id);
            let note_id = opt_str(str_of(field(note, "id"@)));
            let recorded = with_field(note, "file"@, file_entry(a, f, note_id));
            let stored = with_field(
                b,
                "files"@,
                JsonView::Array(field(b, "files"@)->Array_0.push(file_data_entry(f, note_id))),
            );
            backup_consistent(with_note(stored, recorded), user_id)
        }),
{
    let note = turtl_note(b, keep, user_id, id);
    let note_id = opt_str(str_of(field(note, "id"@)));
    let entry = file_entry(a, f, note_id);
    let recorded = with_field(note, "file"@, entry);
    let files = JsonView::Array(field(b, "files"@)->Array_0.push(file_data_entry(f, note_id)));
    let stored = with_field(b, "files"@, files);
    lemma_key_facts();
    lemma_turtl_note_members(b, keep, user_id, id);
    law_field_after_write(note, "file"@, entry);
    law_field_other_after_write(note, "file"@, "user_id"@, entry);
    law_field_other_after_write(note, "file"@, "space_id"@, entry);
    law_field_after_write(b, "files"@, files);
    law_field_other_after_write(b, "files"@, "notes"@, files);
    law_field_other_after_write(b, "files"@, "spaces"@, files);
    assert(space_id_of(stored) == space_id_of(b));
    let notes = field(b, "notes"@)->Array_0;
    assert(field(stored, "notes"@)->Array_0 == notes);
    assert(forall|i: int|
        0 <= i < notes.len() ==> field(#[trigger] notes[i], "user_id"@) == nat_number(
            user_id as u64,
        ) && field(notes[i], "space_id"@) == space_id_of(stored));
    law_field_other_after_write(note, "file"@, "id"@, entry);
    crate::attachment::law_recorded_attachment_ids(note, a, f, id);
    lemma_stored_ids_push(field(b, "files"@)->Array_0, file_data_entry(f, note_id));
    assert(field(recorded, "id"@) == JsonView::Str(id));
    assert(stored_ids(field(stored, "files"@)->Array_0) == file_note_ids(notes).push(
        field(recorded, "id"@),
    ));
    assert(entry is Object);
    assert(has_file_member(recorded));
    lemma_add_consistent_stored(stored, user_id, recorded, notes);
}

proof fn lemma_add_consistent_stored(
    stored: JsonView,
    user_id: u32,
    recorded: JsonView,
    notes: Seq<JsonView>,
)
    requires
        stored is Object,
        field(stored, "notes"@) == JsonView::Array(notes),
        field(stored, "files"@) is Array,
        forall|i: int|
            0 <= i < notes.len() ==> field(#[trigger] notes[i], "user_id"@) == nat_number(
                user_id as u64,
            ) && field(notes[i], "space_id"@) == space_id_of(stored),
        stored_ids(field(stored, "files"@)->Array_0) == file_note_ids(notes).push(
            field(recorded, "id"@),
        ),
        has_file_member(recorded),
        field(recorded, "user_id"@) == nat_number(user_id as u64),
        field(recorded, "space_id"@) == space_id_of(stored),
    ensures
        backup_consistent(with_note(stored, recorded), user_id),
{
    lemma_with_note_members(stored, recorded);
    lemma_ids_push(notes, recorded);
    let new_notes = notes.push(recorded);
    assert forall|i: int| 0 <= i < new_notes.len() implies field(#[trigger] new_notes[i], "user_id"@)
        == nat_number(user_id as u64) && field(new_notes[i], "space_id"@) == space_id_of(stored) by {
        if i < notes.len() {
            assert(new_notes[i] == notes[i]);
        }
    }
}

/// A backup with new identifiers: those of its first board, of that
/// board's space, and of its first space.
pub open spec fn with_ids(b: JsonView, space_id: Seq<char>, board_id: Seq<char>) -> JsonView {
    let board = item(field(b, "boards"@), 0);
    let space = item(field(b, "spaces"@), 0);
    let new_board = with_field(
        with_field(board, "id"@, JsonView::Str(board_id)),
        "space_id"@,
        JsonView::Str(space_id),
    );
    let new_space = with_field(space, "id"@, JsonView::Str(space_id));
    with_field(
        with_field(b, "boards"@, JsonView::Array(seq![new_board])),
        "spaces"@,
        JsonView::Array(seq![new_space]),
    )
}

proof fn lemma_skeleton_with_ids(
    user_id: u32,
    space_id: Seq<char>,
    board_id: Seq<char>,
    new_space: Seq<char>,
    new_board: Seq<char>,
)
    ensures
        with_ids(backup_skeleton(user_id, space_id, board_id), new_space, new_board)
            == backup_skeleton(user_id, new_space, new_board),
{
    reveal_strlit("body");
    reveal_strlit("id");
    reveal_strlit("user_id");
    reveal_strlit("keys");
    reveal_strlit("space_id");
    reveal_strlit("color");
    reveal_strlit("boards");
    reveal_strlit("files");
    reveal_strlit("notes");
    reveal_strlit("schema_version");
    reveal_strlit("spaces");
    assert("body"@[0] == 'b' && "id"@[0] == 'i' && "user_id"@[0] == 'u' && "keys"@[0] == 'k'
        && "space_id"@[0] == 's' && "color"@[0] == 'c' && "boards"@[0] == 'b' && "files"@[0]
        == 'f' && "notes"@[0] == 'n' && "schema_version"@[0] == 's' && "spaces"@[0] == 's');
    assert("body"@.len() == 4 && "boards"@.len() == 6 && "schema_version"@.len() == 14
        && "spaces"@.len() == 6 && "space_id"@.len() == 8);
    let skel = backup_skeleton(user_id, space_id, board_id);
    let te = skel->Object_0;
    lemma_key_position_at(te, "boards"@, 1);
    lemma_key_position_at(te, "spaces"@, 5);
    let board = pinned_board(user_id, space_id, board_id);
    let be = board->Object_0;
    lemma_key_position_at(be, "id"@, 1);
    let be1 = be.update(1, ("id"@, JsonView::Str(new_board)));
    lemma_key_position_at(be1, "space_id"@, 4);
    let be2 = be1.update(4, ("space_id"@, JsonView::Str(new_space)));
    assert(be2 =~= pinned_board(user_id, new_space, new_board)->Object_0);
    let space = import_space(user_id, space_id);
    let se = space->Object_0;
    lemma_key_position_at(se, "id"@, 1);
    let se1 = se.update(1, ("id"@, JsonView::Str(new_space)));
    assert(se1 =~= import_space(user_id, new_space)->Object_0);
    let boards = JsonView::Array(seq![pinned_board(user_id, new_space, new_board)]);
    let te1 = te.update(1, ("boards"@, boards));
    lemma_key_position_at(te1, "spaces"@, 5);
    let spaces = JsonView::Array(seq![import_space(user_id, new_space)]);
    let te2 = te1.update(5, ("spaces"@, spaces));
    assert(te2 =~= backup_skeleton(user_id, new_space, new_board)->Object_0);
}

/// Apart from its identifiers, a new backup depends on the user alone: two
/// new backups for one user are equal once given the same identifiers.
pub proof fn law_backup_determined_by_user(
    user_id: u32,
    space_a: Seq<char>,
    board_a: Seq<char>,
    space_b: Seq<char>,
    board_b: Seq<char>,
    space_id: Seq<char>,
    board_id: Seq<char>,
)
    ensures
        with_ids(backup_skeleton(user_id, space_a, board_a), space_id, board_id) == with_ids(
            backup_skeleton(user_id, space_b, board_b),
            space_id,
            board_id,
        ),
{
    lemma_skeleton_with_ids(user_id, space_a, board_a, space_id, board_id);
    lemma_skeleton_with_ids(user_id, space_b, board_b, space_id, board_id);
}

} // verus!
