use m365_copilot_proxy::json::{parse_json, parse_json_bytes, print_json, Json};

#[test]
fn printing_sorts_members_and_escapes() {
    let value = Json::object()
        .with("b", Json::integer(-3))
        .with("a", Json::array().item(Json::Null).item(Json::Bool(true)).item(Json::text("x\"\n")));
    assert_eq!(print_json(&value), r#"{"a":[null,true,"x\"\n"],"b":-3}"#);
}

#[test]
fn a_later_member_hides_an_earlier_one() {
    let value = Json::object().with("a", Json::integer(1)).with("a", Json::integer(2));
    assert_eq!(value.get_i64("a"), Some(2));
    assert_eq!(print_json(&value), r#"{"a":2}"#);
    let parsed = parse_json(r#"{"a":1,"a":2}"#).unwrap();
    assert_eq!(parsed.get_i64("a"), Some(2));
}

#[test]
fn parsing_gives_what_was_printed() {
    let text = r#"{"list":[1,-2,2.5,18446744073709551615,"s",{}],"n":null,"t":true}"#;
    assert_eq!(print_json(&parse_json(text).unwrap()), text);
    assert_eq!(print_json(&parse_json_bytes(text.as_bytes()).unwrap()), text);
}

#[test]
fn numbers_are_told_apart() {
    let value = parse_json(r#"[1,18446744073709551615,1.0,-1]"#).unwrap();
    let items = value.as_array().unwrap();
    assert_eq!((items[0].as_i64(), items[0].as_u64()), (Some(1), Some(1)));
    assert_eq!((items[1].as_i64(), items[1].as_u64()), (None, Some(u64::MAX)));
    assert_eq!((items[2].as_i64(), items[2].as_u64()), (None, None));
    assert_eq!((items[3].as_i64(), items[3].as_u64()), (Some(-1), None));
}

#[test]
fn errors_carry_the_parsers_message() {
    let wanted = serde_json::from_str::<serde_json::Value>("{").unwrap_err().to_string();
    assert_eq!(parse_json("{").err(), Some(wanted));
    let wanted = serde_json::from_slice::<serde_json::Value>(b"\xff").unwrap_err().to_string();
    assert_eq!(parse_json_bytes(b"\xff").err(), Some(wanted));
}

#[test]
fn members_and_items_of_other_values_are_absent() {
    let value = Json::text("plain");
    assert!(value.get("a").is_none());
    assert!(value.as_array().is_none());
    assert!(value.as_i64().is_none());
    assert_eq!(value.as_str(), Some("plain"));
    assert_eq!(print_json(&Json::text("t").with("a", Json::Null)), "\"t\"");
    assert_eq!(print_json(&Json::Null.item(Json::Null)), "null");
}
