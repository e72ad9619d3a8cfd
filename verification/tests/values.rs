use component_templates::json::{find_member, put_member, Json};
use component_templates::value::{from_value, parse_json, to_json_text, to_value};
use serde_json::Value;

fn json(text: &str) -> Value {
    serde_json::from_str(text).expect("json")
}

#[test]
fn parse_json_reads_every_kind_of_value() {
    let text = r#"{"a":null,"b":true,"c":-2,"d":1.5,"e":"x","f":[1,[2],{"g":"h"}],"i":{}}"#;
    let parsed = parse_json(text).expect("parse");
    assert_eq!(to_value(&parsed), json(text));
    assert_eq!(to_json_text(&parsed), text);
}

#[test]
fn parse_json_reports_the_error_of_the_parser() {
    let error = parse_json("{").expect_err("not json");
    let expected = serde_json::from_str::<Value>("{").expect_err("not json").to_string();
    assert_eq!(error, expected);
    assert!(parse_json("").is_err());
    assert!(parse_json("[1,]").is_err());
}

#[test]
fn from_value_and_to_value_are_inverse() {
    let value = json(r#"{"z":[{"y":[]},"x",3,false],"a":{"b":{"c":null}},"n":18446744073709551615}"#);
    assert_eq!(to_value(&from_value(value.clone())), value);
}

#[test]
fn from_value_keeps_the_members_of_an_object() {
    let tree = from_value(json(r#"{"b":1,"a":"x"}"#));
    match &tree {
        Json::Object(members) => {
            assert_eq!(members.len(), 2);
            assert!(find_member(members, &"a".to_string()).is_some());
            assert!(find_member(members, &"b".to_string()).is_some());
            assert!(find_member(members, &"c".to_string()).is_none());
        }
        other => panic!("not an object: {:?}", other),
    }
    assert!(matches!(tree.get("a"), Some(Json::String(text)) if text == "x"));
    assert!(tree.get("c").is_none());
}

#[test]
fn first_member_of_a_key_counts() {
    let tree = Json::Object(vec![
        ("a".to_string(), Json::Bool(true)),
        ("a".to_string(), Json::Bool(false)),
        ("b".to_string(), Json::Null),
    ]);
    assert!(matches!(tree.get("a"), Some(Json::Bool(true))));
    assert_eq!(to_value(&tree), json(r#"{"a":true,"b":null}"#));
    assert_eq!(to_json_text(&tree), r#"{"a":true,"b":null}"#);
}

#[test]
fn put_member_adds_at_the_end() {
    let mut members = Vec::new();
    put_member(&mut members, "k", Json::string("v"));
    put_member(&mut members, "k", Json::string("w"));
    assert_eq!(members.len(), 2);
    assert_eq!(to_value(&Json::Object(members)), json(r#"{"k":"v"}"#));
}

#[test]
fn clone_copies_the_whole_tree() {
    let value = json(r#"{"a":[1,{"b":"c"}],"d":2.25}"#);
    let tree = from_value(value.clone());
    let copy = tree.clone();
    assert_eq!(to_value(&copy), value);
    assert_eq!(to_value(&tree), value);
}

#[test]
fn to_json_text_is_compact() {
    let tree = from_value(json("{ \"foo\" : \"bar\",\n \"count\" : 2 }"));
    assert_eq!(to_json_text(&tree), r#"{"count":2,"foo":"bar"}"#);
    assert_eq!(to_json_text(&Json::Null), "null");
    assert_eq!(to_json_text(&Json::string("a\"b\n")), r#""a\"b\n""#);
    assert_eq!(to_json_text(&Json::empty_object()), "{}");
    assert_eq!(to_json_text(&Json::Array(Vec::new())), "[]");
}

#[test]
fn optional_member_tells_absent_from_wrong() {
    let tree = from_value(json(r#"{"a":"x","b":null,"c":3}"#));
    assert_eq!(tree.optional_member("a"), Ok(Some("x".to_string())));
    assert_eq!(tree.optional_member("b"), Ok(None));
    assert_eq!(tree.optional_member("z"), Ok(None));
    assert_eq!(tree.optional_member("c"), Err(()));
    assert!(tree.is_object());
    assert!(!Json::Null.is_object());
    assert_eq!(Json::string("t").as_text(), Some(&"t".to_string()));
    assert_eq!(Json::Bool(true).as_text(), None);
}
