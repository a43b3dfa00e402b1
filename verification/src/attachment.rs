//! Reading a note's attachment: the decisions between the file operations
//! (as a step function from state and event to next state and action), and
//! the entries that a read attachment adds to the note and the backup.
use vstd::prelude::*;

use crate::encoding::{base64_encode, base64_standard, law_base64_length};
use crate::json::{
    field, json_wf, keys_distinct, law_field_after_write, law_field_other_after_write,
    law_write_keeps_wf, lemma_key_position_at, lemma_view_entries, nat_number, opt_str, str_of,
    view_entries, with_field, Json, JsonView,
};
use crate::note::{opt_chars, Attachment, ConvertError};
use crate::text::{concat, last_index_of, lemma_last_index_bound, rsplit_char, rsplit_once};

verus! {

/// An attachment as read from disk.
#[derive(Debug)]
pub struct LoadedFile {
    /// Whether the file was found only after changing its extension to `.jpg`.
    pub changed_extension: bool,
    /// The file's length in bytes.
    pub size: u64,
    /// The file's bytes.
    pub data: Vec<u8>,
    /// For an image whose dimensions were read: its height and its width.
    pub dimensions: Option<(u32, u32)>,
}

/// Where the reading of an attachment stands.
#[derive(Clone, Copy, Debug, PartialEq, Eq, Structural)]
pub enum LoadStage {
    /// Opening the path the note gives.
    Opening,
    /// Opening the same path with the extension changed to `.jpg`.
    Retrying,
    /// Reading the opened file's metadata.
    Inspecting,
    /// Reading the file's contents.
    Reading,
    /// Reading the image's dimensions.
    Measuring,
}

/// The state of reading an attachment.
#[derive(Debug)]
pub struct AttachmentLoad {
    pub stage: LoadStage,
    /// The path opened, or being opened.
    pub path: String,
    /// The extension that was replaced by `jpg`, once it was.
    pub extension: String,
    pub changed_extension: bool,
    pub is_image: bool,
    pub size: u64,
    pub data: Vec<u8>,
}

/// What the last file operation gave.
#[derive(Debug)]
pub enum LoadEvent {
    Opened,
    OpenFailed { error: String },
    Inspected { is_file: bool, size: u64 },
    InspectFailed { error: String },
    ReadDone { data: Vec<u8> },
    ReadFailed { error: String },
    Measured { height: u32, width: u32 },
    MeasureFailed { error: String },
}

/// What to do next.
#[derive(Debug)]
pub enum LoadAction {
    /// Open the file at this path.
    Open { path: String },
    /// Read the opened file's metadata.
    Inspect,
    /// Read the whole file (`size` bytes are expected).
    ReadAll { size: u64 },
    /// Read the dimensions of the image at this path.
    Measure { path: String },
    /// The attachment is read.
    Finished(LoadedFile),
    /// The attachment cannot be read, for this reason.
    Failed { reason: String },
    /// The attachment was read but its image dimensions could not be, for
    /// this reason: the note still records the file (without `meta`).
    ImageFailed { reason: String, file: LoadedFile },
    /// The path could not be opened and has no `.` whose extension could
    /// be changed: the conversion cannot go on.
    NoExtension,
}

pub open spec fn open_failure_text(path: Seq<char>, error: Seq<char>, extension: Seq<char>) -> Seq<
    char,
> {
    "Invalid attachment: \""@ + path + "\" / "@ + error + " (changed extension \""@ + extension
        + "\" to \".jpg\")"@
}

pub open spec fn not_a_file_text(path: Seq<char>) -> Seq<char> {
    "Invalid attachment \""@ + path + "\" / Not a file"@
}

pub open spec fn read_failure_text(path: Seq<char>, error: Seq<char>) -> Seq<char> {
    "Failed to read into memory: \""@ + path + "\" / "@ + error
}

pub open spec fn image_failure_text(path: Seq<char>, error: Seq<char>) -> Seq<char> {
    "Invalid image: \""@ + path + "\" / "@ + error
}

/// `b` is `a` at another stage.
pub open spec fn same_load_but_stage(a: AttachmentLoad, b: AttachmentLoad) -> bool {
    &&& a.path@ == b.path@
    &&& a.extension@ == b.extension@
    &&& a.changed_extension == b.changed_extension
    &&& a.is_image == b.is_image
    &&& a.size == b.size
    &&& a.data@ == b.data@
}

/// The action that a state waits to have done.
pub open spec fn pending_action(s: AttachmentLoad, a: LoadAction) -> bool {
    match s.stage {
        LoadStage::Opening | LoadStage::Retrying => a matches LoadAction::Open { path } && path@
            == s.path@,
        LoadStage::Inspecting => a is Inspect,
        LoadStage::Reading => a matches LoadAction::ReadAll { size } && size == s.size,
        LoadStage::Measuring => a matches LoadAction::Measure { path } && path@ == s.path@,
    }
}

pub open spec fn failed_with(a: LoadAction, reason: Seq<char>) -> bool {
    a matches LoadAction::Failed { reason: r } && r@ == reason
}

/// One step of reading an attachment. The file at the note's path is
/// opened; when that fails, the path with its extension (after the last
/// `.`) changed to `jpg` is opened instead. The opened file must be a file;
/// its contents are read, and for an image its dimensions too. Each failure
/// ends the reading with its reason; the failure to read the metadata with
/// the error's own text; the failure to read an image's dimensions hands on
/// the file read so far, which the note records before the error. An event that does not answer the pending action
/// changes nothing and asks for that action again.
pub open spec fn load_step(s: AttachmentLoad, e: LoadEvent, r: (AttachmentLoad, LoadAction)) -> bool {
    let (t, a) = r;
    match (s.stage, e) {
        (LoadStage::Opening, LoadEvent::Opened) | (LoadStage::Retrying, LoadEvent::Opened) => {
            &&& t.stage == LoadStage::Inspecting
            &&& same_load_but_stage(t, s)
            &&& a is Inspect
        },
        (LoadStage::Opening, LoadEvent::OpenFailed { .. }) => match rsplit_once(s.path@, '.') {
            Some((base, extension)) => {
                &&& t.stage == LoadStage::Retrying
                &&& t.path@ == base + ".jpg"@
                &&& t.extension@ == extension
                &&& t.changed_extension
                &&& t.is_image == s.is_image && t.size == s.size && t.data@ == s.data@
                &&& a matches LoadAction::Open { path } && path@ == base + ".jpg"@
            },
            None => t.stage == s.stage && same_load_but_stage(t, s) && a is NoExtension,
        },
        (LoadStage::Retrying, LoadEvent::OpenFailed { error }) => {
            &&& t.stage == s.stage && same_load_but_stage(t, s)
            &&& failed_with(a, open_failure_text(s.path@, error@, s.extension@))
        },
        (LoadStage::Inspecting, LoadEvent::InspectFailed { error }) => {
            &&& t.stage == s.stage && same_load_but_stage(t, s)
            &&& failed_with(a, error@)
        },
        (LoadStage::Inspecting, LoadEvent::Inspected { is_file, size }) => if is_file {
            &&& t.stage == LoadStage::Reading
            &&& t.path@ == s.path@ && t.extension@ == s.extension@
            &&& t.changed_extension == s.changed_extension && t.is_image == s.is_image
            &&& t.size == size && t.data@ == s.data@
            &&& a matches LoadAction::ReadAll { size: n } && n == size
        } else {
            &&& t.stage == s.stage && same_load_but_stage(t, s)
            &&& failed_with(a, not_a_file_text(s.path@))
        },
        (LoadStage::Reading, LoadEvent::ReadFailed { error }) => {
            &&& t.stage == s.stage && same_load_but_stage(t, s)
            &&& failed_with(a, read_failure_text(s.path@, error@))
        },
        (LoadStage::Reading, LoadEvent::ReadDone { data }) => if s.is_image {
            &&& t.stage == LoadStage::Measuring
            &&& t.path@ == s.path@ && t.extension@ == s.extension@
            &&& t.changed_extension == s.changed_extension && t.is_image == s.is_image
            &&& t.size == s.size && t.data@ == data@
            &&& a matches LoadAction::Measure { path } && path@ == s.path@
        } else {
            &&& t.stage == s.stage
            &&& t.path@ == s.path@ && t.extension@ == s.extension@
            &&& t.changed_extension == s.changed_extension && t.is_image == s.is_image
            &&& t.size == s.size && t.data@.len() == 0
            &&& a matches LoadAction::Finished(f) && f.changed_extension == s.changed_extension
                && f.size == s.size && f.data@ == data@ && f.dimensions is None
        },
        (LoadStage::Measuring, LoadEvent::Measured { height, width }) => {
            &&& t.stage == s.stage
            &&& t.path@ == s.path@ && t.extension@ == s.extension@
            &&& t.changed_extension == s.changed_extension && t.is_image == s.is_image
            &&& t.size == s.size && t.data@.len() == 0
            &&& a matches LoadAction::Finished(f) && f.changed_extension == s.changed_extension
                && f.size == s.size && f.data@ == s.data@ && f.dimensions == Some((height, width))
        },
        (LoadStage::Measuring, LoadEvent::MeasureFailed { error }) => {
            &&& t.stage == s.stage
            &&& t.path@ == s.path@ && t.extension@ == s.extension@
            &&& t.changed_extension == s.changed_extension && t.is_image == s.is_image
            &&& t.size == s.size && t.data@.len() == 0
            &&& a matches LoadAction::ImageFailed { reason, file: f } && reason@
                == image_failure_text(s.path@, error@) && f.changed_extension == s.changed_extension
                && f.size == s.size && f.data@ == s.data@ && f.dimensions is None
        },
        _ => t.stage == s.stage && same_load_but_stage(t, s) && pending_action(s, a),
    }
}

/// When the path the note gives cannot be opened, the retry opens the same
/// path with what follows its last `.` replaced by `jpg`, and remembers what
/// was replaced; a path without a `.` ends the conversion.
pub proof fn law_retry_path(s: AttachmentLoad, error: String, r: (AttachmentLoad, LoadAction))
    requires
        s.stage == LoadStage::Opening,
        load_step(s, LoadEvent::OpenFailed { error }, r),
    ensures
        (forall|i: int| 0 <= i < s.path@.len() ==> s.path@[i] != '.') <==> r.1 is NoExtension,
        r.1 is NoExtension ==> r.0.stage == LoadStage::Opening && r.0.path@ == s.path@,
        !(r.1 is NoExtension) ==> (r.0.stage == LoadStage::Retrying && r.0.changed_extension && (
        r.1 matches LoadAction::Open { path } && path@ == r.0.path@)),
        !(r.1 is NoExtension) ==> exists|base: Seq<char>|
            #![auto]
            s.path@ == base + "."@ + r.0.extension@ && r.0.path@ == base + ".jpg"@,
        !(r.1 is NoExtension) ==> forall|i: int|
            0 <= i < r.0.extension@.len() ==> r.0.extension@[i] != '.',
{
    reveal_strlit(".");
    lemma_last_index_bound(s.path@, '.');
    let p = last_index_of(s.path@, '.');
    if p >= 0 {
        let base = s.path@.take(p);
        let ext = s.path@.skip(p + 1);
        assert(s.path@ =~= base + "."@ + ext);
        assert forall|i: int| 0 <= i < ext.len() implies ext[i] != '.' by {
            assert(ext[i] == s.path@[p + 1 + i]);
        }
        assert(s.path@ == base + "."@ + r.0.extension@ && r.0.path@ == base + ".jpg"@);
    }
}

/// A completed read hands on exactly the bytes read: a file that is not an
/// image is finished with them; an image keeps them while it is measured.
pub proof fn law_read_keeps_bytes(s: AttachmentLoad, data: Vec<u8>, r: (AttachmentLoad, LoadAction))
    requires
        s.stage == LoadStage::Reading,
        load_step(s, LoadEvent::ReadDone { data }, r),
    ensures
        !s.is_image ==> (r.1 matches LoadAction::Finished(f) && f.data@ == data@),
        s.is_image ==> (r.0.stage == LoadStage::Measuring && r.0.data@ == data@),
{
}

/// The file of an image holds the bytes that were read, whether its
/// dimensions could then be read or not.
pub proof fn law_measured_keeps_bytes(
    s: AttachmentLoad,
    data: Vec<u8>,
    r1: (AttachmentLoad, LoadAction),
    e: LoadEvent,
    r2: (AttachmentLoad, LoadAction),
)
    requires
        s.stage == LoadStage::Reading,
        s.is_image,
        load_step(s, LoadEvent::ReadDone { data }, r1),
        load_step(r1.0, e, r2),
        e is Measured || e is MeasureFailed,
    ensures
        (r2.1 matches LoadAction::Finished(f) && f.data@ == data@) || (
        r2.1 matches LoadAction::ImageFailed { file, .. } && file.data@ == data@),
{
}

/// The first step of reading an attachment: open the path the note gives.
pub fn start_load(attachment: &Attachment) -> (res: (AttachmentLoad, LoadAction))
    ensures
        res.0.stage == LoadStage::Opening,
        res.0.path@ == attachment.path@,
        res.0.extension@ == Seq::<char>::empty(),
        !res.0.changed_extension,
        res.0.is_image == attachment.is_image,
        res.0.size == 0,
        res.0.data@ == Seq::<u8>::empty(),
        res.1 matches LoadAction::Open { path } && path@ == attachment.path@,
{
    let state = AttachmentLoad {
        stage: LoadStage::Opening,
        path: attachment.path.clone(),
        extension: String::new(),
        changed_extension: false,
        is_image: attachment.is_image,
        size: 0,
        data: Vec::new(),
    };
    let action = LoadAction::Open { path: attachment.path.clone() };
    (state, action)
}

fn quoted(before: &str, path: &str, after: &str) -> (res: String)
    ensures
        res@ == before@ + path@ + after@,
{
    let mut r = concat(before, path);
    r.append(after);
    r
}

/// The action a state waits to have done.
fn pending(s: &AttachmentLoad) -> (res: LoadAction)
    ensures
        pending_action(*s, res),
{
    match s.stage {
        LoadStage::Opening | LoadStage::Retrying => LoadAction::Open { path: s.path.clone() },
        LoadStage::Inspecting => LoadAction::Inspect,
        LoadStage::Reading => LoadAction::ReadAll { size: s.size },
        LoadStage::Measuring => LoadAction::Measure { path: s.path.clone() },
    }
}

/// One step of reading an attachment: the next state and action after an event.
pub fn advance_load(state: AttachmentLoad, event: LoadEvent) -> (res: (AttachmentLoad, LoadAction))
    ensures
        load_step(state, event, res),
{
    let ghost s = state;
    match (state.stage, event) {
        (LoadStage::Opening, LoadEvent::Opened) | (LoadStage::Retrying, LoadEvent::Opened) => {
            (AttachmentLoad { stage: LoadStage::Inspecting, ..state }, LoadAction::Inspect)
        },
        (LoadStage::Opening, LoadEvent::OpenFailed { .. }) => {
            match rsplit_char(state.path.as_str(), '.') {
                Some((base, extension)) => {
                    let path = concat(base, ".jpg");
                    let extension = extension.to_owned();
                    let action = LoadAction::Open { path: path.clone() };
                    (
                        AttachmentLoad {
                            stage: LoadStage::Retrying,
                            path,
                            extension,
                            changed_extension: true,
                            ..state
                        },
                        action,
                    )
                },
                None => (state, LoadAction::NoExtension),
            }
        },
        (LoadStage::Retrying, LoadEvent::OpenFailed { error }) => {
            let mut reason = quoted("Invalid attachment: \"", state.path.as_str(), "\" / ");
            reason.append(error.as_str());
            reason.append(" (changed extension \"");
            reason.append(state.extension.as_str());
            reason.append("\" to \".jpg\")");
            (state, LoadAction::Failed { reason })
        },
        (LoadStage::Inspecting, LoadEvent::InspectFailed { error }) => {
            (state, LoadAction::Failed { reason: error })
        },
        (LoadStage::Inspecting, LoadEvent::Inspected { is_file, size }) => {
            if is_file {
                (AttachmentLoad { stage: LoadStage::Reading, size, ..state }, LoadAction::ReadAll {
                    size,
                })
            } else {
                let reason = quoted(
                    "Invalid attachment \"",
                    state.path.as_str(),
                    "\" / Not a file",
                );
                (state, LoadAction::Failed { reason })
            }
        },
        (LoadStage::Reading, LoadEvent::ReadFailed { error }) => {
            let mut reason = quoted("Failed to read into memory: \"", state.path.as_str(), "\" / ");
            reason.append(error.as_str());
            (state, LoadAction::Failed { reason })
        },
        (LoadStage::Reading, LoadEvent::ReadDone { data }) => {
            if state.is_image {
                let path = state.path.clone();
                (
                    AttachmentLoad { stage: LoadStage::Measuring, data, ..state },
                    LoadAction::Measure { path },
                )
            } else {
                let file = LoadedFile {
                    changed_extension: state.changed_extension,
                    size: state.size,
                    data,
                    dimensions: None,
                };
                (AttachmentLoad { data: Vec::new(), ..state }, LoadAction::Finished(file))
            }
        },
        (LoadStage::Measuring, LoadEvent::Measured { height, width }) => {
            let AttachmentLoad { stage, path, extension, changed_extension, is_image, size, data } =
                state;
            let file = LoadedFile { changed_extension, size, data, dimensions: Some((height, width)) };
            (
                AttachmentLoad {
                    stage,
                    path,
                    extension,
                    changed_extension,
                    is_image,
                    size,
                    data: Vec::new(),
                },
                LoadAction::Finished(file),
            )
        },
        (LoadStage::Measuring, LoadEvent::MeasureFailed { error }) => {
            let mut reason = quoted("Invalid image: \"", state.path.as_str(), "\" / ");
            reason.append(error.as_str());
            let AttachmentLoad { stage, path, extension, changed_extension, is_image, size, data } =
                state;
            let file = LoadedFile { changed_extension, size, data, dimensions: None };
            (
                AttachmentLoad {
                    stage,
                    path,
                    extension,
                    changed_extension,
                    is_image,
                    size,
                    data: Vec::new(),
                },
                LoadAction::ImageFailed { reason, file },
            )
        },
        _ => {
            let action = pending(&state);
            (state, action)
        },
    }
}

/// Turtl's type of an attachment: its mimetype, or, when the file was found
/// only as a `.jpg`, the mimetype's type (before its last `/`) with subtype `jpg`.
pub open spec fn file_type_of(mimetype: Seq<char>, changed_extension: bool) -> Seq<char> {
    if changed_extension {
        rsplit_once(mimetype, '/')->Some_0.0 + "/jpg"@
    } else {
        mimetype
    }
}

/// The `file` member of a note with a read attachment.
pub open spec fn file_entry(a: Attachment, f: LoadedFile, id: JsonView) -> JsonView {
    let entry = JsonView::Object(
        seq![
            ("name"@, opt_str(opt_chars(a.name))),
            ("size"@, nat_number(f.size)),
            ("type"@, JsonView::Str(file_type_of(a.mimetype@, f.changed_extension))),
            ("id"@, id),
        ],
    );
    match f.dimensions {
        Some((height, width)) => with_field(
            entry,
            "meta"@,
            JsonView::Object(
                seq![
                    ("height"@, nat_number(height as u64)),
                    ("width"@, nat_number(width as u64)),
                ],
            ),
        ),
        None => entry,
    }
}

/// The entry of the backup's `files` that holds an attachment's contents.
pub open spec fn file_data_entry(f: LoadedFile, id: JsonView) -> JsonView {
    JsonView::Object(
        seq![
            ("body"@, JsonView::Null),
            ("data"@, JsonView::Str(base64_standard(f.data@))),
            ("id"@, id),
        ],
    )
}

proof fn lemma_entries_wf(a: Attachment, f: LoadedFile, id: JsonView)
    requires
        id is Str || id is Null,
    ensures
        json_wf(file_entry(a, f, id)),
        json_wf(file_data_entry(f, id)),
{
    reveal_strlit("name");
    reveal_strlit("size");
    reveal_strlit("type");
    reveal_strlit("id");
    reveal_strlit("meta");
    reveal_strlit("height");
    reveal_strlit("width");
    reveal_strlit("body");
    reveal_strlit("data");
    assert("name"@[0] == 'n' && "size"@[0] == 's' && "type"@[0] == 't' && "id"@[0] == 'i'
        && "height"@[0] == 'h' && "width"@[0] == 'w' && "body"@[0] == 'b' && "data"@[0] == 'd');
    let entry = JsonView::Object(
        seq![
            ("name"@, opt_str(opt_chars(a.name))),
            ("size"@, nat_number(f.size)),
            ("type"@, JsonView::Str(file_type_of(a.mimetype@, f.changed_extension))),
            ("id"@, id),
        ],
    );
    let es = entry->Object_0;
    assert(keys_distinct(es)) by {
        assert forall|i: int, j: int|
            0 <= i < es.len() && 0 <= j < es.len() && i != j implies #[trigger] es[i].0
            != #[trigger] es[j].0 by {
            assert(i == 0 || i == 1 || i == 2 || i == 3);
            assert(j == 0 || j == 1 || j == 2 || j == 3);
        }
    }
    assert forall|i: int| 0 <= i < es.len() implies json_wf(#[trigger] es[i].1) by {
        assert(i == 0 || i == 1 || i == 2 || i == 3);
    }
    assert(json_wf(entry));
    if let Some((height, width)) = f.dimensions {
        let meta = JsonView::Object(
            seq![("height"@, nat_number(height as u64)), ("width"@, nat_number(width as u64))],
        );
        let ms = meta->Object_0;
        assert(keys_distinct(ms)) by {
            assert forall|i: int, j: int|
                0 <= i < ms.len() && 0 <= j < ms.len() && i != j implies #[trigger] ms[i].0
                != #[trigger] ms[j].0 by {
                assert(i == 0 || i == 1);
                assert(j == 0 || j == 1);
            }
        }
        assert forall|i: int| 0 <= i < ms.len() implies json_wf(#[trigger] ms[i].1) by {
            assert(i == 0 || i == 1);
        }
        law_write_keeps_wf(entry, "meta"@, meta);
    }
    let ds = file_data_entry(f, id)->Object_0;
    assert(keys_distinct(ds)) by {
        assert forall|i: int, j: int|
            0 <= i < ds.len() && 0 <= j < ds.len() && i != j implies #[trigger] ds[i].0
            != #[trigger] ds[j].0 by {
            assert(i == 0 || i == 1 || i == 2);
            assert(j == 0 || j == 1 || j == 2);
        }
    }
    assert forall|i: int| 0 <= i < ds.len() implies json_wf(#[trigger] ds[i].1) by {
        assert(i == 0 || i == 1 || i == 2);
    }
}

/// A recorded attachment carries the identifier of its note: in the note's
/// `file` member and in the backup's `files` entry alike.
pub proof fn law_recorded_attachment_ids(
    note: JsonView,
    a: Attachment,
    f: LoadedFile,
    id: Seq<char>,
)
    requires
        field(note, "id"@) == JsonView::Str(id),
    ensures
        field(
            field(
                with_field(note, "file"@, file_entry(a, f, opt_str(str_of(field(note, "id"@))))),
                "file"@,
            ),
            "id"@,
        ) == JsonView::Str(id),
        field(file_data_entry(f, opt_str(str_of(field(note, "id"@)))), "id"@) == JsonView::Str(id),
{
    reveal_strlit("name");
    reveal_strlit("size");
    reveal_strlit("type");
    reveal_strlit("id");
    reveal_strlit("meta");
    reveal_strlit("body");
    reveal_strlit("data");
    assert("name"@[0] == 'n' && "size"@[0] == 's' && "type"@[0] == 't' && "id"@[0] == 'i'
        && "meta"@[0] == 'm' && "body"@[0] == 'b' && "data"@[0] == 'd');
    let id_v = JsonView::Str(id);
    let entry = JsonView::Object(
        seq![
            ("name"@, opt_str(opt_chars(a.name))),
            ("size"@, nat_number(f.size)),
            ("type"@, JsonView::Str(file_type_of(a.mimetype@, f.changed_extension))),
            ("id"@, id_v),
        ],
    );
    lemma_key_position_at(entry->Object_0, "id"@, 3);
    assert(field(entry, "id"@) == id_v);
    if let Some((height, width)) = f.dimensions {
        let meta = JsonView::Object(
            seq![("height"@, nat_number(height as u64)), ("width"@, nat_number(width as u64))],
        );
        law_field_other_after_write(entry, "meta"@, "id"@, meta);
    }
    law_field_after_write(note, "file"@, file_entry(a, f, id_v));
    let stored = file_data_entry(f, id_v);
    lemma_key_position_at(stored->Object_0, "id"@, 2);
}

/// The type of an attachment as Turtl records it.
fn file_type(mimetype: &str, changed_extension: bool) -> (res: String)
    requires
        changed_extension ==> rsplit_once(mimetype@, '/') is Some,
    ensures
        res@ == file_type_of(mimetype@, changed_extension),
{
    if changed_extension {
        match rsplit_char(mimetype, '/') {
            Some((basic, _)) => concat(basic, "/jpg"),
            None => mimetype.to_owned(),
        }
    } else {
        mimetype.to_owned()
    }
}

/// Records a read attachment in its note: the note gets a `file` member
/// describing it (with the image's dimensions as `meta` when they were read).
pub fn record_file_member(note: &mut Json, attachment: &Attachment, file: &LoadedFile)
    requires
        file.changed_extension ==> rsplit_once(attachment.mimetype@, '/') is Some,
    ensures
        final(note)@ == with_field(
            old(note)@,
            "file"@,
            file_entry(*attachment, *file, opt_str(str_of(field(old(note)@, "id"@)))),
        ),
        json_wf(old(note)@) ==> json_wf(final(note)@),
{
    let ghost id_view = opt_str(str_of(field(note@, "id"@)));
    proof {
        lemma_entries_wf(*attachment, *file, id_view);
    }
    let name = match &attachment.name {
        Some(s) => Json::string(s.as_str()),
        None => Json::Null,
    };
    let mut entry = Json::Object(
        vec![
            ("name".to_owned(), name),
            ("size".to_owned(), Json::number(file.size)),
            (
                "type".to_owned(),
                Json::Str(file_type(attachment.mimetype.as_str(), file.changed_extension)),
            ),
            ("id".to_owned(), Json::opt_string(note.get("id").as_str())),
        ],
    );
    proof {
        lemma_view_entries(entry->Object_0@);
        assert(view_entries(entry->Object_0@) =~= seq![
            ("name"@, opt_str(opt_chars(attachment.name))),
            ("size"@, nat_number(file.size)),
            ("type"@, JsonView::Str(file_type_of(attachment.mimetype@, file.changed_extension))),
            ("id"@, id_view),
        ]);
    }
    match file.dimensions {
        Some((height, width)) => {
            let meta = Json::Object(
                vec![
                    ("height".to_owned(), Json::number(height as u64)),
                    ("width".to_owned(), Json::number(width as u64)),
                ],
            );
            proof {
                lemma_view_entries(meta->Object_0@);
                assert(view_entries(meta->Object_0@) =~= seq![
                    ("height"@, nat_number(height as u64)),
                    ("width"@, nat_number(width as u64)),
                ]);
            }
            entry.set_field("meta", meta);
        },
        None => {},
    }
    note.set_field("file", entry);
}

/// `convert_keep2turtl_parsefile`: adds a read attachment. The note gets a
/// `file` member describing it (see `record_file_member`), and the backup's
/// `files` gets the contents in base64, under the note's identifier.
pub fn convert_keep2turtl_parsefile(
    backup: &mut Json,
    note: &mut Json,
    attachment: &Attachment,
    file: &LoadedFile,
)
    requires
        old(backup)@ is Object,
        field(old(backup)@, "files"@) is Array,
        file.changed_extension ==> rsplit_once(attachment.mimetype@, '/') is Some,
    ensures
        final(note)@ == with_field(
            old(note)@,
            "file"@,
            file_entry(*attachment, *file, opt_str(str_of(field(old(note)@, "id"@)))),
        ),
        final(backup)@ == with_field(
            old(backup)@,
            "files"@,
            JsonView::Array(
                field(old(backup)@, "files"@)->Array_0.push(
                    file_data_entry(*file, opt_str(str_of(field(old(note)@, "id"@)))),
                ),
            ),
        ),
        json_wf(old(note)@) ==> json_wf(final(note)@),
        json_wf(old(backup)@) ==> json_wf(final(backup)@),
        field(field(final(backup)@, "files"@)->Array_0.last(), "data"@) == JsonView::Str(
            base64_standard(file.data@),
        ),
{
    let ghost id_view = opt_str(str_of(field(note@, "id"@)));
    let ghost backup0 = backup@;
    let ghost note0 = note@;
    proof {
        lemma_entries_wf(*attachment, *file, id_view);
        law_stored_file_data(backup0, note0, *file);
    }
    let stored = Json::Object(
        vec![
            ("body".to_owned(), Json::Null),
            ("data".to_owned(), Json::Str(base64_encode(file.data.as_slice()))),
            ("id".to_owned(), Json::opt_string(note.get("id").as_str())),
        ],
    );
    proof {
        lemma_view_entries(stored->Object_0@);
        assert(view_entries(stored->Object_0@) =~= file_data_entry(*file, id_view)->Object_0);
    }
    record_file_member(note, attachment, file);
    backup.push_to_field("files", stored);
}

/// How the reading of an attachment ended.
#[derive(Debug)]
pub enum LoadOutcome {
    /// The attachment was read.
    Loaded(LoadedFile),
    /// The attachment could not be read, for this reason.
    Failed(String),
    /// The attachment was read but its image dimensions could not be, for
    /// this reason.
    ImageFailed(String, LoadedFile),
}

/// The backup after a read attachment's contents are stored.
pub open spec fn with_stored_file(backup: JsonView, note: JsonView, f: LoadedFile) -> JsonView {
    with_field(
        backup,
        "files"@,
        JsonView::Array(
            field(backup, "files"@)->Array_0.push(
                file_data_entry(f, opt_str(str_of(field(note, "id"@)))),
            ),
        ),
    )
}

/// Storing a read attachment appends one entry to the backup's `files`,
/// after those already there, and that entry's `data` is the base64 text of
/// all of the file's bytes (four characters for each three bytes or fewer).
pub proof fn law_stored_file_data(backup: JsonView, note: JsonView, f: LoadedFile)
    requires
        field(backup, "files"@) is Array,
    ensures
        field(with_stored_file(backup, note, f), "files"@) is Array,
        field(with_stored_file(backup, note, f), "files"@)->Array_0.len() == field(
            backup,
            "files"@,
        )->Array_0.len() + 1,
        field(with_stored_file(backup, note, f), "files"@)->Array_0.take(
            field(backup, "files"@)->Array_0.len() as int,
        ) == field(backup, "files"@)->Array_0,
        field(field(with_stored_file(backup, note, f), "files"@)->Array_0.last(), "data"@)
            == JsonView::Str(base64_standard(f.data@)),
        base64_standard(f.data@).len() == 4 * ((f.data@.len() + 2) / 3),
{
    reveal_strlit("body");
    reveal_strlit("data");
    assert("body"@[0] == 'b' && "data"@[0] == 'd');
    let before = field(backup, "files"@)->Array_0;
    let stored = file_data_entry(f, opt_str(str_of(field(note, "id"@))));
    law_field_after_write(backup, "files"@, JsonView::Array(before.push(stored)));
    assert(before.push(stored).take(before.len() as int) =~= before);
    lemma_key_position_at(stored->Object_0, "data"@, 1);
    law_base64_length(f.data@);
}

/// The note after a read attachment is recorded in it.
pub open spec fn with_file_member(note: JsonView, a: Attachment, f: LoadedFile) -> JsonView {
    with_field(note, "file"@, file_entry(a, f, opt_str(str_of(field(note, "id"@)))))
}

pub open spec fn is_attachment_error(e: ConvertError, file_name: Seq<char>, reason: Seq<char>) -> bool {
    e matches ConvertError::Attachment { file_name: f, reason: r } && f@ == file_name && r@ == reason
}

/// Finishes a note once the reading of its attachment has ended. A read
/// attachment is recorded in the note and stored in the backup. A failed
/// reading is the note's conversion error and leaves the backup as it was;
/// when only the image dimensions failed, the note has already recorded the
/// file (without `meta`).
pub fn finish_note(
    backup: &mut Json,
    note: &mut Json,
    attachment: &Attachment,
    file_name: &str,
    outcome: LoadOutcome,
) -> (res: Result<(), ConvertError>)
    requires
        outcome is Loaded ==> old(backup)@ is Object && field(old(backup)@, "files"@) is Array,
        outcome matches LoadOutcome::Loaded(f) && f.changed_extension ==> rsplit_once(
            attachment.mimetype@,
            '/',
        ) is Some,
        outcome matches LoadOutcome::ImageFailed(_, f) && f.changed_extension ==> rsplit_once(
            attachment.mimetype@,
            '/',
        ) is Some,
    ensures
        match outcome {
            LoadOutcome::Loaded(f) => {
                &&& res is Ok
                &&& final(note)@ == with_file_member(old(note)@, *attachment, f)
                &&& final(backup)@ == with_stored_file(old(backup)@, old(note)@, f)
                &&& field(field(final(backup)@, "files"@)->Array_0.last(), "data"@)
                    == JsonView::Str(base64_standard(f.data@))
            },
            LoadOutcome::Failed(reason) => {
                &&& res matches Err(e) && is_attachment_error(e, file_name@, reason@)
                &&& final(note)@ == old(note)@
                &&& final(backup)@ == old(backup)@
            },
            LoadOutcome::ImageFailed(reason, f) => {
                &&& res matches Err(e) && is_attachment_error(e, file_name@, reason@)
                &&& final(note)@ == with_file_member(old(note)@, *attachment, f)
                &&& final(backup)@ == old(backup)@
            },
        },
        res is Err ==> final(backup)@ == old(backup)@,
        json_wf(old(note)@) ==> json_wf(final(note)@),
        json_wf(old(backup)@) ==> json_wf(final(backup)@),
{
    match outcome {
        LoadOutcome::Loaded(file) => {
            convert_keep2turtl_parsefile(backup, note, attachment, &file);
            Ok(())
        },
        LoadOutcome::Failed(reason) => {
            Err(ConvertError::Attachment { file_name: file_name.to_owned(), reason })
        },
        LoadOutcome::ImageFailed(reason, file) => {
            record_file_member(note, attachment, &file);
            Err(ConvertError::Attachment { file_name: file_name.to_owned(), reason })
        },
    }
}

} // verus!
