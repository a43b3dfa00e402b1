//! Base64 text of file contents, through the base64 crate.
use vstd::prelude::*;

verus! {

/// The character of a 6-bit value in the standard alphabet of RFC 4648:
/// `A`-`Z`, `a`-`z`, `0`-`9`, `+`, `/`.
pub open spec fn base64_digit(v: u8) -> char {
    if v < 26 {
        (65 + v) as char
    } else if v < 52 {
        (97 + (v - 26)) as char
    } else if v < 62 {
        (48 + (v - 52)) as char
    } else if v == 62 {
        '+'
    } else {
        '/'
    }
}

/// Base64 with the standard alphabet and `=` padding (RFC 4648, section 4):
/// every three bytes become four characters; a last group of one or two
/// bytes becomes two or three characters and padding.
pub open spec fn base64_standard(data: Seq<u8>) -> Seq<char>
    decreases data.len(),
{
    if data.len() == 0 {
        Seq::empty()
    } else if data.len() == 1 {
        let a = data[0];
        seq![base64_digit(a >> 2), base64_digit((a & 3) << 4), '=', '=']
    } else if data.len() == 2 {
        let a = data[0];
        let b = data[1];
        seq![
            base64_digit(a >> 2),
            base64_digit((((a & 3) << 4) | (b >> 4)) as u8),
            base64_digit((b & 15) << 2),
            '=',
        ]
    } else {
        let a = data[0];
        let b = data[1];
        let c = data[2];
        seq![
            base64_digit(a >> 2),
            base64_digit((((a & 3) << 4) | (b >> 4)) as u8),
            base64_digit((((b & 15) << 2) | (c >> 6)) as u8),
            base64_digit(c & 63),
        ] + base64_standard(data.skip(3))
    }
}

/// Base64 text has four characters for each group of three bytes or fewer,
/// so its length tells how many bytes it holds.
pub proof fn law_base64_length(data: Seq<u8>)
    ensures
        base64_standard(data).len() == 4 * ((data.len() + 2) / 3),
    decreases data.len(),
{
    if data.len() >= 3 {
        law_base64_length(data.skip(3));
    }
}

/// `base64::encode`: the crate's documentation gives it as encoding with
/// `STANDARD`, the standard character set with padding.
#[verifier::external_body]
pub fn base64_encode(data: &[u8]) -> (res: String)
    ensures
        res@ == base64_standard(data@),
{
    base64::encode(data)
}

} // verus!
