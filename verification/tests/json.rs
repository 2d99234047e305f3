use aster::json::{Fields, Json};
use aster::json_text::{
    canonical_json, lift_value, parse_arguments, quote, read_json, read_leading, repair_escapes,
};

#[test]
fn a_member_set_is_found_and_the_others_stay() {
    let j = Fields::new().text("a", "1").text("b", "2").json();
    let j = j.set("a", Json::Number(5));
    assert_eq!(j.u64_at("a"), Some(5));
    assert_eq!(j.str_at("b"), Some("2"));
    assert_eq!(j.str_at("c"), None);
}

#[test]
fn reading_gives_the_value_or_the_error() {
    let j = read_json("{\"n\": 3, \"s\": \"x\", \"b\": true, \"l\": [1, null], \"f\": 1.5}");
    let j = j.expect("a value");
    assert_eq!(j.u64_at("n"), Some(3));
    assert_eq!(j.str_at("s"), Some("x"));
    assert_eq!(j.bool_at("b"), Some(true));
    assert_eq!(j.array_at("l").map(|v| v.len()), Some(2));
    assert!(matches!(j.get("f"), Some(Json::Other(t)) if t == "1.5"));
    assert!(read_json("{").is_err());
    assert!(read_json("{} x").is_err());
}

#[test]
fn a_leading_value_is_read_whatever_follows() {
    assert!(matches!(read_leading("{\"a\":1} trailing"), Some(Json::Object(_))));
    assert!(read_leading("{\"a\":").is_none());
}

#[test]
fn values_of_the_json_crate_are_lifted() {
    let mut map = serde_json::Map::new();
    map.insert("k".to_string(), serde_json::Value::from(7u64));
    let lifted = lift_value(&serde_json::Value::Object(map));
    assert_eq!(lifted.u64_at("k"), Some(7));
    assert!(matches!(lift_value(&serde_json::Value::Null), Json::Null));
    assert!(matches!(lift_value(&serde_json::Value::from(-2)), Json::Other(t) if t == "-2"));
}

#[test]
fn quoting_escapes_as_json_does() {
    assert_eq!(quote("a\"\\\n\u{1}é"), "\"a\\\"\\\\\\n\\u0001é\"");
}

#[test]
fn the_canonical_form_sorts_members_at_every_depth() {
    let a = read_json("{\"b\": {\"y\": 1, \"x\": [true, null]}, \"a\": \"q\"}").expect("json");
    let b = read_json("{\"a\": \"q\", \"b\": {\"x\": [true, null], \"y\": 1}}").expect("json");
    assert_eq!(canonical_json(&a), "{\"a\":\"q\",\"b\":{\"x\":[true,null],\"y\":1}}");
    assert_eq!(canonical_json(&a), canonical_json(&b));
}

#[test]
fn bad_escapes_are_mended() {
    assert_eq!(repair_escapes("{\"p\": \"a\\d\"}"), "{\"p\": \"a\\\\d\"}");
    let j = parse_arguments("{\"p\": \"a\\d\"}").expect("mended");
    assert_eq!(j.str_at("p"), Some("a\\d"));
    let j = parse_arguments("{\"p\": \"v\"}{\"p\": \"w\"}").expect("the first");
    assert_eq!(j.str_at("p"), Some("v"));
    assert!(parse_arguments("nonsense").is_err());
    assert!(parse_arguments("").is_err());
}
