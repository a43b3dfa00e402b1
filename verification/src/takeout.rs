//! Which files of a Google Takeout export hold Keep notes.
use vstd::prelude::*;

use crate::text::{rsplit_char, rsplit_once, same_text};
use vstd::string::StringSliceAdditionalSpecFns;

verus! {

/// What `Regex::new(pattern)` and then `is_match(text)` give: `None` when
/// the pattern does not compile.
pub uninterp spec fn regex_match_result(pattern: Seq<char>, text: Seq<char>) -> Option<bool>;

/// The names that `^Takeout/Keep/(.+)\.json$` matches: `Takeout/Keep/`, at
/// least one character other than a line feed, and `.json`.
pub open spec fn is_keep_note_name(name: Seq<char>) -> bool {
    &&& name.len() >= 19
    &&& name.take(13) == "Takeout/Keep/"@
    &&& name.skip(name.len() - 5) == ".json"@
    &&& forall|i: int| 13 <= i < name.len() - 5 ==> name[i] != '\n'
}

/// `regex::Regex::new(pattern)` and `Regex::is_match(text)`. The contract
/// names the outcome, and states what the regex crate's documented syntax
/// gives for the one pattern this library uses: `^` and `$` anchor at the
/// ends of the text, `.` matches any character but a line feed, `\.` a dot.
#[verifier::external_body]
fn regex_is_match(pattern: &str, text: &str) -> (res: Option<bool>)
    ensures
        res == regex_match_result(pattern@, text@),
        pattern@ == "^Takeout/Keep/(.+)\\.json$"@ ==> res == Some(is_keep_note_name(text@)),
{
    match regex::Regex::new(pattern) {
        Ok(re) => Some(re.is_match(text)),
        Err(_) => None,
    }
}

/// Whether an entry of a Takeout zip file is a Keep note: its name matches
/// `^Takeout/Keep/(.+)\.json$`.
pub fn is_keep_zip_entry(name: &str) -> (res: bool)
    ensures
        res == (regex_match_result("^Takeout/Keep/(.+)\\.json$"@, name@) == Some(true)),
        res == is_keep_note_name(name@),
{
    match regex_is_match("^Takeout/Keep/(.+)\\.json$", name) {
        Some(m) => m,
        None => false,
    }
}

/// The bytes of `.json`.
pub open spec fn json_suffix_bytes() -> Seq<u8> {
    seq![46u8, 106u8, 115u8, 111u8, 110u8]
}

/// Whether a file of an unzipped Keep directory is a note: its path ends
/// in `.json`.
pub fn has_json_extension(path: &str) -> (res: bool)
    ensures
        res == (path.spec_bytes().len() >= 5 && path.spec_bytes().skip(
            path.spec_bytes().len() - 5,
        ) == json_suffix_bytes()),
{
    let bytes = path.as_bytes();
    let n = bytes.len();
    if n < 5 {
        return false;
    }
    let r = bytes[n - 5] == 46u8 && bytes[n - 4] == 106u8 && bytes[n - 3] == 115u8 && bytes[n
        - 2] == 111u8 && bytes[n - 1] == 110u8;
    proof {
        let tail = bytes@.skip(n - 5);
        if r {
            assert(tail =~= json_suffix_bytes());
        } else {
            assert(tail[0] != json_suffix_bytes()[0] || tail[1] != json_suffix_bytes()[1]
                || tail[2] != json_suffix_bytes()[2] || tail[3] != json_suffix_bytes()[3]
                || tail[4] != json_suffix_bytes()[4]);
        }
    }
    r
}

/// Whether the input names a zip file: the text after its last `.` is `zip`.
pub fn is_zip_path(path: &str) -> (res: bool)
    ensures
        res == (rsplit_once(path@, '.') matches Some((_, extension)) && extension == "zip"@),
{
    match rsplit_char(path, '.') {
        Some((_, extension)) => same_text(extension, "zip"),
        None => false,
    }
}

} // verus!
