use jev_copilot::json::Json;
use jev_copilot::value::{from_value, parse, render, to_value};

#[test]
fn a_key_that_was_set_gives_back_its_value() {
    let object = Json::object().with("b", Json::Unsigned(1)).with("a", Json::Bool(true));
    assert_eq!(object.get("b"), Some(&Json::Unsigned(1)));
    assert_eq!(object.get("a"), Some(&Json::Bool(true)));
    assert_eq!(object.get("c"), None);
    let changed = object.with("b", Json::Null);
    assert_eq!(changed.get("b"), Some(&Json::Null));
    assert_eq!(changed.get("a"), Some(&Json::Bool(true)));
}

#[test]
fn entries_stand_in_the_order_of_their_keys() {
    let object = Json::object()
        .with("draft_2", Json::Null)
        .with("draft_10", Json::Null)
        .with("draft_1", Json::Null)
        .with("draft_2", Json::Unsigned(2));
    assert_eq!(render(&object), r#"{"draft_1":null,"draft_10":null,"draft_2":2}"#);
    if let Json::Object(members) = &object {
        assert_eq!(members.len(), 3);
        assert_eq!(members.key(1), "draft_10");
        assert_eq!(members.value(2), &Json::Unsigned(2));
    } else {
        panic!("no object");
    }
}

#[test]
fn what_is_no_object_stays_as_it_is() {
    let array = Json::Array(vec![Json::Unsigned(1)]);
    assert_eq!(array.with("a", Json::Null), Json::Array(vec![Json::Unsigned(1)]));
    assert_eq!(Json::text("x").get("a"), None);
}

#[test]
fn accessors_tell_the_kinds_apart() {
    let value = Json::object().with("t", Json::text("中")).with("n", Json::Unsigned(3));
    assert_eq!(value.str_at("t"), Some("中"));
    assert_eq!(value.str_at("n"), None);
    assert_eq!(value.str_at("x"), None);
    assert!(value.as_array().is_none());
    assert_eq!(Json::Array(vec![Json::Null]).as_array().unwrap().len(), 1);
    assert_eq!(Json::text("a").as_str(), Some("a"));
    assert_eq!(Json::Null.as_str(), None);
}

#[test]
fn a_copy_says_the_same() {
    let text = r#"{"a":[1,-2,2.5,"x",null,true,{"b":{}}]}"#;
    let value = parse(text).unwrap();
    let copy = value.duplicate();
    assert_eq!(copy, value);
    assert_eq!(render(&copy), text);
}

#[test]
fn text_is_read_by_its_kind() {
    assert_eq!(parse("null").unwrap(), Json::Null);
    assert_eq!(parse(" true ").unwrap(), Json::Bool(true));
    assert_eq!(parse("18446744073709551615").unwrap(), Json::Unsigned(u64::MAX));
    assert_eq!(parse("\"a\\nb\"").unwrap(), Json::text("a\nb"));
    assert!(matches!(parse("-1").unwrap(), Json::Number(_)));
    assert!(matches!(parse("1.0").unwrap(), Json::Number(_)));
    assert!(matches!(parse("18446744073709551616").unwrap(), Json::Number(_)));
    assert_eq!(
        parse("[1,[]]").unwrap(),
        Json::Array(vec![Json::Unsigned(1), Json::Array(Vec::new())])
    );
    assert_eq!(
        parse(r#"{"b":1,"a":2,"b":3}"#).unwrap(),
        Json::object().with("a", Json::Unsigned(2)).with("b", Json::Unsigned(3))
    );
}

#[test]
fn what_is_no_json_gives_the_message_of_the_parser() {
    assert_eq!(
        parse("").unwrap_err(),
        "EOF while parsing a value at line 1 column 0"
    );
    let expected = serde_json::from_str::<serde_json::Value>("{oops").unwrap_err().to_string();
    assert_eq!(parse("{oops").unwrap_err(), expected);
    assert!(parse("1 2").is_err());
}

#[test]
fn values_convert_both_ways() {
    let text = r#"{"a":[0,-7,1.5,1e300,"\"",null,false],"b":{"z":1,"y":[]}}"#;
    let value: serde_json::Value = serde_json::from_str(text).unwrap();
    let json = from_value(value.clone());
    assert_eq!(to_value(&json), value);
    assert_eq!(render(&json), value.to_string());
    assert_eq!(from_value(to_value(&json)), json);
}

#[test]
fn numbers_come_through_unchanged() {
    let number = serde_json::Value::from(0.1 + 0.2);
    assert_eq!(to_value(&from_value(number.clone())), number);
    assert_eq!(to_value(&Json::Unsigned(5)), serde_json::Value::from(5u64));
}

#[test]
fn an_integer_is_told_from_other_numbers_both_ways() {
    assert_eq!(from_value(serde_json::Value::from(5u64)), Json::Unsigned(5));
    assert_eq!(from_value(serde_json::Value::from(5i64)), Json::Unsigned(5));
    for other in ["-5", "5.0", "5e0", "18446744073709551616"] {
        assert!(matches!(parse(other).unwrap(), Json::Number(_)), "{other}");
    }
    for json in [Json::Unsigned(5), parse("-5").unwrap(), parse("5.0").unwrap()] {
        assert_eq!(from_value(to_value(&json)), json);
    }
    assert_eq!(to_value(&Json::Unsigned(5)), serde_json::Value::from(5u64));
}
