use oxibrowser_core::json::{number_json, text_json, Json, JsonNumber};
use oxibrowser_core::json_codec::{from_value, parse_json, write_json, MAX_READ_DEPTH};

fn object(entries: Vec<(&str, Json)>) -> Json {
    Json::Object(entries.into_iter().map(|(k, v)| (k.to_string(), v)).collect())
}

#[test]
fn text_is_compact_and_sorted_by_key() {
    let value = object(vec![
        ("b", Json::Array(vec![Json::Null, Json::Bool(true), number_json(7)])),
        ("a", text_json("x\"y\n")),
        ("c", Json::Number(JsonNumber::Negative(-2))),
        ("d", object(vec![])),
    ]);
    assert_eq!(
        write_json(&value),
        "{\"a\":\"x\\\"y\\n\",\"b\":[null,true,7],\"c\":-2,\"d\":{}}"
    );
}

#[test]
fn what_was_written_is_read_back() {
    let value = object(vec![
        ("a", Json::Array(vec![Json::Null, Json::Bool(false), number_json(u64::MAX)])),
        ("b", Json::Number(JsonNumber::Negative(i64::MIN))),
        ("c", text_json("\u{1f600} \\ / \u{1}")),
        ("d", object(vec![("e", Json::Array(vec![]))])),
    ]);
    assert_eq!(parse_json(&write_json(&value)), Some(value));
}

#[test]
fn reading_stops_at_its_depth() {
    let nested = |n: usize| "[".repeat(n) + &"]".repeat(n);
    assert!(parse_json(&nested(MAX_READ_DEPTH)).is_some());
    assert!(parse_json(&nested(MAX_READ_DEPTH + 1)).is_none());
}

#[test]
fn last_entry_of_a_key_counts() {
    let value = object(vec![("k", number_json(1)), ("k", number_json(2))]);
    assert_eq!(write_json(&value), "{\"k\":2}");
    assert_eq!(value.get("k"), Some(&number_json(2)));
    assert_eq!(parse_json("{\"k\":1,\"k\":2}"), Some(object(vec![("k", number_json(2))])));
}

#[test]
fn readers_pass_over_other_values() {
    let value = object(vec![("s", text_json("t")), ("n", number_json(3))]);
    assert_eq!(value.get_str("s"), Some("t"));
    assert_eq!(value.get_str("n"), None);
    assert_eq!(value.get_str("x"), None);
    assert_eq!(value.as_str(), None);
    assert_eq!(text_json("t").get("s"), None);
    assert_eq!(value.get("n").unwrap().as_u64(), Some(3));
    assert_eq!(Json::Number(JsonNumber::Negative(-3)).as_u64(), None);
    assert_eq!(Json::Number(JsonNumber::Negative(3)).as_u64(), Some(3));
    assert_eq!(text_json("3").as_u64(), None);
    assert!(value.as_array().is_none());
    assert_eq!(Json::Array(vec![Json::Null]).as_array().unwrap().len(), 1);
}

#[test]
fn numbers_keep_their_kind() {
    assert_eq!(parse_json("5"), Some(number_json(5)));
    assert_eq!(parse_json("-5"), Some(Json::Number(JsonNumber::Negative(-5))));
    let half = parse_json("0.5").unwrap();
    assert_eq!(half.as_u64(), None);
    assert_eq!(write_json(&half), "0.5");
    assert_eq!(write_json(&Json::Number(JsonNumber::Negative(4))), "4");
    let whole = Json::Number(JsonNumber::Float(serde_json::Number::from(9u64)));
    assert_eq!(whole.as_u64(), Some(9));
    assert_eq!(write_json(&whole), "9");
}

#[test]
fn text_that_is_not_json_is_not_read() {
    assert_eq!(parse_json(""), None);
    assert_eq!(parse_json("{"), None);
    assert_eq!(parse_json("1 2"), None);
}

#[test]
fn codec_values_are_taken_over() {
    let value = serde_json::Value::Array(vec![
        serde_json::Value::Null,
        serde_json::Value::Bool(true),
        serde_json::Value::String("s".to_string()),
        serde_json::Value::from(-1),
    ]);
    assert_eq!(
        from_value(value),
        Json::Array(vec![
            Json::Null,
            Json::Bool(true),
            text_json("s"),
            Json::Number(JsonNumber::Negative(-1)),
        ])
    );
}
