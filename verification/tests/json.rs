use rs_cel_repl::error::Error;
use rs_cel_repl::json::{key_order, put_member, JsonNumber, JsonValue, KeyOrder};

#[test]
fn keys_are_ordered_by_their_bytes() {
    assert_eq!(key_order("a", "b"), KeyOrder::Before);
    assert_eq!(key_order("b", "a"), KeyOrder::After);
    assert_eq!(key_order("a", "a"), KeyOrder::Same);
    assert_eq!(key_order("", ""), KeyOrder::Same);
    assert_eq!(key_order("", "a"), KeyOrder::Before);
    assert_eq!(key_order("ab", "a"), KeyOrder::After);
    assert_eq!(key_order("Z", "a"), KeyOrder::Before);
    assert_eq!(key_order("z", "\u{e9}"), KeyOrder::Before);
    assert_eq!(key_order("\u{10000}", "\u{ffff}"), KeyOrder::After);
}

#[test]
fn key_order_agrees_with_the_order_of_strings() {
    let keys = ["", "a", "ab", "b", "Int(1)", "\u{e9}", "\u{ffff}", "\u{10000}", "~"];
    for a in keys {
        for b in keys {
            let expected = if a < b {
                KeyOrder::Before
            } else if a == b {
                KeyOrder::Same
            } else {
                KeyOrder::After
            };
            assert_eq!(key_order(a, b), expected);
        }
    }
}

#[test]
fn put_member_keeps_the_keys_in_order() {
    let mut members: Vec<(String, JsonValue)> = Vec::new();
    put_member(&mut members, "m".to_string(), JsonValue::Bool(true));
    put_member(&mut members, "z".to_string(), JsonValue::Null);
    put_member(&mut members, "a".to_string(), JsonValue::Bool(false));
    assert_eq!(
        members,
        vec![
            ("a".to_string(), JsonValue::Bool(false)),
            ("m".to_string(), JsonValue::Bool(true)),
            ("z".to_string(), JsonValue::Null),
        ]
    );
}

#[test]
fn put_member_replaces_a_member_with_the_same_key() {
    let mut members = vec![
        ("a".to_string(), JsonValue::Bool(false)),
        ("m".to_string(), JsonValue::Bool(true)),
    ];
    put_member(&mut members, "m".to_string(), JsonValue::Null);
    assert_eq!(
        members,
        vec![("a".to_string(), JsonValue::Bool(false)), ("m".to_string(), JsonValue::Null)]
    );
}

#[test]
fn parse_reads_every_kind_of_document() {
    assert_eq!(JsonValue::parse("null"), Ok(JsonValue::Null));
    assert_eq!(JsonValue::parse("false"), Ok(JsonValue::Bool(false)));
    assert_eq!(JsonValue::parse("7"), Ok(JsonValue::Number(JsonNumber::PosInt(7))));
    assert_eq!(JsonValue::parse("-7"), Ok(JsonValue::Number(JsonNumber::NegInt(-7))));
    assert_eq!(
        JsonValue::parse("18446744073709551615"),
        Ok(JsonValue::Number(JsonNumber::PosInt(u64::MAX)))
    );
    assert_eq!(
        JsonValue::parse("0.25"),
        Ok(JsonValue::Number(JsonNumber::Float("0.25".to_string())))
    );
    assert_eq!(JsonValue::parse("\"a\\nb\""), Ok(JsonValue::String("a\nb".to_string())));
    assert_eq!(
        JsonValue::parse("[1, [2]]"),
        Ok(JsonValue::Array(vec![
            JsonValue::Number(JsonNumber::PosInt(1)),
            JsonValue::Array(vec![JsonValue::Number(JsonNumber::PosInt(2))]),
        ]))
    );
}

#[test]
fn parse_gives_an_object_in_key_order_with_the_later_member() {
    assert_eq!(
        JsonValue::parse("{\"b\": 1, \"a\": {}, \"b\": 2}"),
        Ok(JsonValue::Object(vec![
            ("a".to_string(), JsonValue::Object(vec![])),
            ("b".to_string(), JsonValue::Number(JsonNumber::PosInt(2))),
        ]))
    );
}

#[test]
fn parse_refuses_what_is_not_one_document() {
    for text in ["", "{", "1 2", "nul", "[1,]"] {
        match JsonValue::parse(text) {
            Err(Error::SerdeJson(detail)) => assert!(!detail.is_empty()),
            other => panic!("unexpected outcome for {:?}: {:?}", text, other),
        }
    }
}

fn sample() -> JsonValue {
    JsonValue::Object(vec![
        ("b".to_string(), JsonValue::Array(vec![JsonValue::Null, JsonValue::Bool(true)])),
        ("a".to_string(), JsonValue::Number(JsonNumber::NegInt(-1))),
        ("c".to_string(), JsonValue::Number(JsonNumber::Float("1.5".to_string()))),
        ("a".to_string(), JsonValue::String("x".to_string())),
    ])
}

#[test]
fn to_compact_writes_one_line() {
    assert_eq!(
        sample().to_compact(),
        Ok("{\"a\":\"x\",\"b\":[null,true],\"c\":1.5}".to_string())
    );
}

#[test]
fn to_pretty_writes_indented_lines() {
    assert_eq!(
        sample().to_pretty(),
        Ok("{\n  \"a\": \"x\",\n  \"b\": [\n    null,\n    true\n  ],\n  \"c\": 1.5\n}".to_string())
    );
}

#[test]
fn a_double_without_a_json_number_is_written_as_null() {
    let document = JsonValue::Array(vec![
        JsonValue::Number(JsonNumber::Float("NaN".to_string())),
        JsonValue::Number(JsonNumber::Float("inf".to_string())),
        JsonValue::Number(JsonNumber::Float("no number".to_string())),
        JsonValue::Number(JsonNumber::Float("2.50".to_string())),
    ]);
    assert_eq!(document.to_compact(), Ok("[null,null,null,2.5]".to_string()));
}

#[test]
fn what_is_written_reads_back() {
    let text = sample().to_compact().unwrap();
    assert_eq!(
        JsonValue::parse(&text),
        Ok(JsonValue::Object(vec![
            ("a".to_string(), JsonValue::String("x".to_string())),
            ("b".to_string(), JsonValue::Array(vec![JsonValue::Null, JsonValue::Bool(true)])),
            ("c".to_string(), JsonValue::Number(JsonNumber::Float("1.5".to_string()))),
        ]))
    );
}
