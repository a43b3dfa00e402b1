//! Converts the notes of a Google Keep export (Google Takeout, zipped or
//! unzipped) into a Turtl backup.
//!
//! - `json`: a JSON document model with the json crate's access and update
//!   operations; `json_text`: parsing and printing through the json crate.
//! - `note`: a Keep note to a Turtl note; `attachment`: reading a note's
//!   attachment and recording it in the note and the backup.
//! - `backup`: the backup object and the notes added to it.
//! - `ids`: random object identifiers; `encoding`: base64; `text`: string
//!   operations; `takeout`: which files of an export hold notes.
pub mod attachment;
pub mod backup;
pub mod encoding;
pub mod ids;
pub mod json;
pub mod json_text;
pub mod note;
pub mod takeout;
pub mod text;
