use keep2turtl::json::Json;
use keep2turtl::json_text::{dump, parse_json};
use keep2turtl::text::{count_char, first_token_of, rsplit_char};

#[test]
fn written_member_reads_back() {
    let mut v = parse_json(r#"{"a":1,"b":2}"#).unwrap();
    v.set_field("b", Json::string("x"));
    assert_eq!(v.get("b").as_str(), Some("x"));
    assert_eq!(v.get("a").as_u64(), Some(1));
    assert_eq!(dump(&v), r#"{"a":1,"b":"x"}"#);
}

#[test]
fn new_member_is_appended() {
    let mut v = parse_json(r#"{"a":1}"#).unwrap();
    v.set_field("z", Json::Null);
    assert_eq!(dump(&v), r#"{"a":1,"z":null}"#);
}

#[test]
fn writing_into_a_non_object_makes_an_object() {
    let mut v = Json::string("s");
    v.set_field("k", Json::Bool(true));
    assert_eq!(dump(&v), r#"{"k":true}"#);
}

#[test]
fn pushing_into_an_array_member() {
    let mut v = parse_json(r#"{"list":[1],"other":0}"#).unwrap();
    v.push_to_field("list", Json::number(2));
    assert_eq!(dump(&v), r#"{"list":[1,2],"other":0}"#);
}

#[test]
fn repeated_keys_are_kept_once() {
    let v = parse_json(r#"{"a":1,"a":2}"#).unwrap();
    assert_eq!(v.len(), 1);
    assert_eq!(v.get("a").as_u64(), Some(2));
}

#[test]
fn accessors_follow_the_json_crate() {
    let v = parse_json(r#"{"n":5,"neg":-5,"frac":1.5,"s":"t","b":false,"arr":[1,2,3]}"#).unwrap();
    assert_eq!(v.get("n").as_u64(), Some(5));
    assert_eq!(v.get("neg").as_u64(), None);
    assert_eq!(v.get("frac").as_u64(), None);
    assert_eq!(v.get("s").as_str(), Some("t"));
    assert_eq!(v.get("s").as_u64(), None);
    assert_eq!(v.get("b").as_bool(), Some(false));
    assert!(!v.get("b").is_true());
    assert_eq!(v.get("missing").as_str(), None);
    assert!(matches!(v.get("missing"), Json::Null));
    assert_eq!(v.get("arr").len(), 3);
    assert_eq!(v.get("arr").at(2).as_u64(), Some(3));
    assert!(matches!(v.get("arr").at(3), Json::Null));
    assert_eq!(v.get("arr").members().len(), 3);
    assert_eq!(v.get("s").members().len(), 0);
    assert_eq!(v.len(), 6);
    assert_eq!(v.get("s").len(), 0);
    assert!(matches!(v.at(0), Json::Null));
}

#[test]
fn string_helpers() {
    assert_eq!(count_char("image/png", '/'), 1);
    assert_eq!(count_char("a/b/c", '/'), 2);
    assert_eq!(first_token_of("image/png", '/'), "image");
    assert_eq!(first_token_of("plain", '/'), "plain");
    assert_eq!(rsplit_char("a.b.c", '.'), Some(("a.b", "c")));
    assert_eq!(rsplit_char("abc", '.'), None);
    assert_eq!(rsplit_char("é.png", '.'), Some(("é", "png")));
}
