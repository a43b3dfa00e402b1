//! Object identifiers: 80 lowercase hexadecimal digits taken from three
//! random UUIDs.
use vstd::prelude::*;

use crate::text::{lemma_without_absent, lemma_without_concat, without_char};

verus! {

pub open spec fn is_lower_hex(c: char) -> bool {
    ('0' <= c && c <= '9') || ('a' <= c && c <= 'f')
}

pub open spec fn is_uuid_dash_position(i: int) -> bool {
    i == 8 || i == 13 || i == 18 || i == 23
}

/// The hyphenated lowercase text of a UUID:
/// `xxxxxxxx-xxxx-xxxx-xxxx-xxxxxxxxxxxx` with lowercase hexadecimal digits.
pub open spec fn is_uuid_text(s: Seq<char>) -> bool {
    &&& s.len() == 36
    &&& forall|i: int|
        0 <= i < 36 ==> if is_uuid_dash_position(i) {
            #[trigger] s[i] == '-'
        } else {
            is_lower_hex(s[i])
        }
}

/// A variant digit of an RFC 4122 / RFC 9562 UUID: `8`, `9`, `a` or `b`.
pub open spec fn is_variant_digit(c: char) -> bool {
    c == '8' || c == '9' || c == 'a' || c == 'b'
}

/// The text of a random (version 4) UUID: version digit `4` and an RFC
/// variant digit.
pub open spec fn is_v4_uuid_text(s: Seq<char>) -> bool {
    &&& is_uuid_text(s)
    &&& s[14] == '4'
    &&& is_variant_digit(s[19])
}

/// An identifier of this library: 80 lowercase hexadecimal digits.
pub open spec fn is_object_id(s: Seq<char>) -> bool {
    &&& s.len() == 80
    &&& forall|i: int| 0 <= i < 80 ==> is_lower_hex(#[trigger] s[i])
}

/// An identifier made from three random UUIDs: besides its shape, the
/// version digit of each UUID (at 12, 44 and 76) and the variant digit of
/// the first two (at 16 and 48; the third's falls beyond the cut).
pub open spec fn is_random_object_id(s: Seq<char>) -> bool {
    &&& is_object_id(s)
    &&& s[12] == '4' && s[44] == '4' && s[76] == '4'
    &&& is_variant_digit(s[16]) && is_variant_digit(s[48])
}

/// The identifier made from three UUID texts: their concatenation without
/// dashes, cut to 80 characters.
pub open spec fn object_id_from(a: Seq<char>, b: Seq<char>, c: Seq<char>) -> Seq<char> {
    without_char(a + b + c, '-').take(80)
}

/// A character that a regular expression matches literally.
pub open spec fn is_literal_regex_char(c: char) -> bool {
    ('a' <= c && c <= 'z') || ('A' <= c && c <= 'Z') || ('0' <= c && c <= '9') || c == '-'
}

/// What `Regex::new(pattern)` and then `replace_all(text, replacement)`
/// give: `None` when the pattern does not compile.
pub uninterp spec fn regex_replace_all_result(
    pattern: Seq<char>,
    text: Seq<char>,
    replacement: Seq<char>,
) -> Option<Seq<char>>;

/// `regex::Regex::new(pattern)` and `Regex::replace_all(text, replacement)`.
/// The contract names the outcome and states what the regex crate's
/// documentation gives for one plain case: a pattern of one character that
/// is a letter, a digit or `-` compiles and matches that character alone,
/// so replacing it by the empty text removes every occurrence.
#[verifier::external_body]
fn regex_replace_all(pattern: &str, text: &str, replacement: &str) -> (res: Option<String>)
    ensures
        match res {
            Some(r) => regex_replace_all_result(pattern@, text@, replacement@) == Some(r@),
            None => regex_replace_all_result(pattern@, text@, replacement@) is None,
        },
        pattern@.len() == 1 && is_literal_regex_char(pattern@[0]) && replacement@.len() == 0
            ==> res is Some && res->Some_0@ == without_char(text@, pattern@[0]),
{
    match regex::Regex::new(pattern) {
        Ok(re) => Some(re.replace_all(text, replacement).into_owned()),
        Err(_) => None,
    }
}

/// `uuid::Uuid::new_v4().to_string()`: a random UUID in its hyphenated
/// lowercase text (uuid's `Display` formats with `format_hyphenated`, lower
/// case). `new_v4` masks the random bits to set version 4 and the RFC
/// variant (`& 0xFFFFFFFFFFFF4FFFBFFFFFFFFFFFFFFF | 0x40008000000000000000`),
/// so hex digit 12 is `4` and digit 16 one of `8`, `9`, `a`, `b`; in the
/// hyphenated text these stand at 14 and 19. The other digits are left open.
#[verifier::external_body]
fn new_uuid_text() -> (res: String)
    ensures
        is_v4_uuid_text(res@),
{
    uuid::Uuid::new_v4().to_string()
}

proof fn lemma_uuid_without_dashes(a: Seq<char>)
    requires
        is_uuid_text(a),
    ensures
        without_char(a, '-').len() == 32,
        without_char(a, '-')[12] == a[14],
        without_char(a, '-')[16] == a[19],
        forall|i: int| 0 <= i < 32 ==> is_lower_hex(#[trigger] without_char(a, '-')[i]),
{
    let d = seq!['-'];
    let p1 = a.subrange(0, 8);
    let p2 = a.subrange(9, 13);
    let p3 = a.subrange(14, 18);
    let p4 = a.subrange(19, 23);
    let p5 = a.subrange(24, 36);
    assert(a[8] == '-' && a[13] == '-' && a[18] == '-' && a[23] == '-');
    assert(a =~= p1 + d + p2 + d + p3 + d + p4 + d + p5);
    assert(without_char(d, '-') =~= Seq::<char>::empty()) by {
        assert(d.drop_last() =~= Seq::<char>::empty());
        assert(d.last() == '-');
        assert(without_char(d.drop_last(), '-') =~= Seq::<char>::empty());
    }
    assert forall|i: int| 0 <= i < p1.len() implies p1[i] != '-' && is_lower_hex(p1[i]) by {
        assert(p1[i] == a[i]);
    }
    assert forall|i: int| 0 <= i < p2.len() implies p2[i] != '-' && is_lower_hex(p2[i]) by {
        assert(p2[i] == a[i + 9]);
    }
    assert forall|i: int| 0 <= i < p3.len() implies p3[i] != '-' && is_lower_hex(p3[i]) by {
        assert(p3[i] == a[i + 14]);
    }
    assert forall|i: int| 0 <= i < p4.len() implies p4[i] != '-' && is_lower_hex(p4[i]) by {
        assert(p4[i] == a[i + 19]);
    }
    assert forall|i: int| 0 <= i < p5.len() implies p5[i] != '-' && is_lower_hex(p5[i]) by {
        assert(p5[i] == a[i + 24]);
    }
    lemma_without_absent(p1, '-');
    lemma_without_absent(p2, '-');
    lemma_without_absent(p3, '-');
    lemma_without_absent(p4, '-');
    lemma_without_absent(p5, '-');
    lemma_without_concat(p1, d, '-');
    lemma_without_concat(p1 + d, p2, '-');
    lemma_without_concat(p1 + d + p2, d, '-');
    lemma_without_concat(p1 + d + p2 + d, p3, '-');
    lemma_without_concat(p1 + d + p2 + d + p3, d, '-');
    lemma_without_concat(p1 + d + p2 + d + p3 + d, p4, '-');
    lemma_without_concat(p1 + d + p2 + d + p3 + d + p4, d, '-');
    lemma_without_concat(p1 + d + p2 + d + p3 + d + p4 + d, p5, '-');
    let w = p1 + p2 + p3 + p4 + p5;
    assert(without_char(a, '-') =~= w);
    assert(w[12] == p3[0]);
    assert(w[16] == p4[0]);
    assert forall|i: int| 0 <= i < 32 implies is_lower_hex(#[trigger] w[i]) by {
        if i < 8 {
            assert(w[i] == p1[i]);
        } else if i < 12 {
            assert(w[i] == p2[i - 8]);
        } else if i < 16 {
            assert(w[i] == p3[i - 12]);
        } else if i < 20 {
            assert(w[i] == p4[i - 16]);
        } else {
            assert(w[i] == p5[i - 20]);
        }
    }
}

/// An identifier made from three UUID texts is 80 lowercase hexadecimal digits.
pub proof fn law_object_id_shape(a: Seq<char>, b: Seq<char>, c: Seq<char>)
    requires
        is_uuid_text(a),
        is_uuid_text(b),
        is_uuid_text(c),
    ensures
        is_object_id(object_id_from(a, b, c)),
{
    lemma_without_len(a, b, c);
    let w = without_char(a + b + c, '-');
    let id = object_id_from(a, b, c);
    assert forall|i: int| 0 <= i < 80 implies is_lower_hex(#[trigger] id[i]) by {
        assert(id[i] == w[i]);
    }
}

/// The identifier made from three UUID texts: concatenated, dashes removed
/// with the regular expression `-`, cut to 80 characters.
pub fn object_id_from_uuids(a: &str, b: &str, c: &str) -> (res: String)
    requires
        is_uuid_text(a@),
        is_uuid_text(b@),
        is_uuid_text(c@),
    ensures
        res@ == object_id_from(a@, b@, c@),
        is_object_id(res@),
        is_v4_uuid_text(a@) && is_v4_uuid_text(b@) && is_v4_uuid_text(c@) ==> is_random_object_id(
            res@,
        ),
{
    let mut joined = a.to_owned();
    joined.append(b);
    joined.append(c);
    proof {
        reveal_strlit("-");
        reveal_strlit("");
        law_object_id_shape(a@, b@, c@);
    }
    match regex_replace_all("-", joined.as_str(), "") {
        Some(stripped) => {
            let ghost w = stripped@;
            proof {
                assert(joined@ == a@ + b@ + c@);
                assert(is_object_id(w.take(80)));
                assert(w.len() >= 80) by {
                    lemma_without_len(a@, b@, c@);
                }
                lemma_without_len(a@, b@, c@);
                assert forall|i: int| 0 <= i < w.len() implies '\0' <= #[trigger] w[i] <= '\u{7f}' by {
                    lemma_without_len(a@, b@, c@);
                }
            }
            let cut = stripped.as_str().substring_ascii(0, 80);
            cut.to_owned()
        },
        None => {
            proof {
                assert(false);
            }
            String::new()
        },
    }
}

proof fn lemma_without_len(a: Seq<char>, b: Seq<char>, c: Seq<char>)
    requires
        is_uuid_text(a),
        is_uuid_text(b),
        is_uuid_text(c),
    ensures
        without_char(a + b + c, '-').len() == 96,
        without_char(a + b + c, '-')[12] == a[14],
        without_char(a + b + c, '-')[16] == a[19],
        without_char(a + b + c, '-')[44] == b[14],
        without_char(a + b + c, '-')[48] == b[19],
        without_char(a + b + c, '-')[76] == c[14],
        forall|i: int|
            0 <= i < 96 ==> is_lower_hex(#[trigger] without_char(a + b + c, '-')[i]),
{
    lemma_uuid_without_dashes(a);
    lemma_uuid_without_dashes(b);
    lemma_uuid_without_dashes(c);
    lemma_without_concat(a, b, '-');
    lemma_without_concat(a + b, c, '-');
    let wa = without_char(a, '-');
    let wb = without_char(b, '-');
    let wc = without_char(c, '-');
    let w = without_char(a + b + c, '-');
    assert(w == wa + wb + wc);
    assert(w[12] == wa[12] && w[16] == wa[16]);
    assert(w[44] == wb[12] && w[48] == wb[16]);
    assert(w[76] == wc[12]);
    assert forall|i: int| 0 <= i < 96 implies is_lower_hex(#[trigger] w[i]) by {
        if i < 32 {
            assert(w[i] == wa[i]);
        } else if i < 64 {
            assert(w[i] == wb[i - 32]);
        } else {
            assert(w[i] == wc[i - 64]);
        }
    }
}

/// A new random identifier: 80 lowercase hexadecimal digits made from three
/// fresh UUIDs.
pub fn get_uuid() -> (res: String)
    ensures
        is_random_object_id(res@),
        exists|a: Seq<char>, b: Seq<char>, c: Seq<char>|
            is_v4_uuid_text(a) && is_v4_uuid_text(b) && is_v4_uuid_text(c) && res@ == object_id_from(
                a,
                b,
                c,
            ),
{
    let id1 = new_uuid_text();
    let id2 = new_uuid_text();
    let id3 = new_uuid_text();
    object_id_from_uuids(id1.as_str(), id2.as_str(), id3.as_str())
}

} // verus!
