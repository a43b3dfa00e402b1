//! JSON text: parsing and printing through the json crate.
use vstd::prelude::*;

use crate::json::{json_wf, Json, JsonNumber, JsonView};

verus! {

/// The json crate's value type; only the conversions below look inside it.
#[verifier::external_type_specification]
#[verifier::external_body]
pub struct ExJsonValue(json::JsonValue);

/// What `json::parse` makes of a text: the document, or the text of its error.
pub uninterp spec fn json_parse_result(text: Seq<char>) -> Result<JsonView, Seq<char>>;

/// The text that the json crate prints (`Display`) for the number that
/// `Number::from_parts` makes of these parts.
pub uninterp spec fn json_number_text(n: JsonNumber) -> Seq<char>;

/// The compact JSON text that the json crate prints (`JsonValue::dump`) for a value.
pub uninterp spec fn json_dump_text(v: JsonView) -> Seq<char>;

/// What `format!("{}", value)` gives for a json crate value: a string
/// itself, `null`, `true` or `false`, the number's text, and the compact
/// JSON text of arrays and objects.
pub open spec fn display_of(v: JsonView) -> Seq<char> {
    match v {
        JsonView::Str(s) => s,
        JsonView::Null => seq!['n', 'u', 'l', 'l'],
        JsonView::Bool(b) => if b {
            seq!['t', 'r', 'u', 'e']
        } else {
            seq!['f', 'a', 'l', 's', 'e']
        },
        JsonView::Number(n) => json_number_text(n),
        _ => json_dump_text(v),
    }
}

/// Rebuilds a json crate value as a `Json`, node for node: a string in
/// either of the crate's representations becomes `Str`, a number keeps the
/// parts that `Number::as_parts` gives, object entries keep their order.
#[verifier::external_body]
fn json_from_value(v: &json::JsonValue) -> Json {
    match v {
        json::JsonValue::Null => Json::Null,
        json::JsonValue::Short(s) => Json::Str(s.as_str().to_owned()),
        json::JsonValue::String(s) => Json::Str(s.clone()),
        json::JsonValue::Number(n) => {
            let (positive, mantissa, exponent) = n.as_parts();
            Json::Number(JsonNumber { positive, mantissa, exponent })
        },
        json::JsonValue::Boolean(b) => Json::Bool(*b),
        json::JsonValue::Object(o) => Json::Object(
            o.iter().map(|(k, x)| (k.to_owned(), json_from_value(x))).collect(),
        ),
        json::JsonValue::Array(a) => Json::Array(a.iter().map(json_from_value).collect()),
    }
}

/// Rebuilds a `Json` as a json crate value, node for node: objects by
/// inserting their entries in order, numbers by `Number::from_parts` (which
/// drops trailing zeros of a fraction: parts (150, -2) become (15, -1)).
#[verifier::external_body]
fn json_value_of(v: &Json) -> json::JsonValue {
    match v {
        Json::Null => json::JsonValue::Null,
        Json::Bool(b) => json::JsonValue::Boolean(*b),
        Json::Number(n) => json::JsonValue::Number(
            json::number::Number::from_parts(n.positive, n.mantissa, n.exponent),
        ),
        Json::Str(s) => json::JsonValue::String(s.clone()),
        Json::Array(items) => json::JsonValue::Array(items.iter().map(json_value_of).collect()),
        Json::Object(es) => json::JsonValue::Object(
            es.iter().map(|(k, x)| (k.as_str(), json_value_of(x))).collect(),
        ),
    }
}

/// `json::parse`, its result rebuilt as a `Json` and its error as the error's
/// text. The contract names the outcome, and states one fact of the crate's
/// parser: an object that repeats a key keeps one entry for it (the parser
/// inserts with `Object::insert_index`, which overrides an existing key).
#[verifier::external_body]
pub fn parse_json(text: &str) -> (res: Result<Json, String>)
    ensures
        match res {
            Ok(doc) => json_parse_result(text@) == Ok::<JsonView, Seq<char>>(doc@) && json_wf(
                doc@,
            ),
            Err(msg) => json_parse_result(text@) == Err::<JsonView, Seq<char>>(msg@),
        },
{
    match json::parse(text) {
        Ok(v) => Ok(json_from_value(&v)),
        Err(e) => Err(e.to_string()),
    }
}

/// `format!("{}", value)` on the json crate value that `v` stands for.
/// `JsonValue`'s `Display` prints strings, `null` and booleans as such,
/// numbers with `Number`'s `Display`, and anything else as `dump()` does.
/// A number is rebuilt with `Number::from_parts`, so a fraction with
/// trailing zeros prints without them (`1.50` as `1.5`).
#[verifier::external_body]
pub fn display_text(v: &Json) -> (res: String)
    ensures
        res@ == display_of(v@),
        v@ is Number ==> res@ == json_number_text(v@->Number_0),
{
    format!("{}", json_value_of(v))
}

/// `JsonValue::dump` (what `json::stringify` returns) on the json crate
/// value that `v` stands for: its compact JSON text.
#[verifier::external_body]
pub fn dump(v: &Json) -> (res: String)
    ensures
        res@ == json_dump_text(v@),
{
    json_value_of(v).dump()
}

} // verus!
