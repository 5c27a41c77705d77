use rs_cel_repl::json::{JsonNumber, JsonValue};
use rs_cel_repl::value::{CelKey, CelValue};

#[test]
fn null_and_bool_convert_to_themselves() {
    assert_eq!(CelValue::Null.to_json(), JsonValue::Null);
    assert_eq!(CelValue::Bool(true).to_json(), JsonValue::Bool(true));
}

#[test]
fn integers_convert_to_numbers() {
    assert_eq!(CelValue::Int(-5).to_json(), JsonValue::Number(JsonNumber::NegInt(-5)));
    assert_eq!(CelValue::Int(5).to_json(), JsonValue::Number(JsonNumber::PosInt(5)));
    assert_eq!(CelValue::UInt(u64::MAX).to_json(), JsonValue::Number(JsonNumber::PosInt(u64::MAX)));
}

#[test]
fn doubles_convert_to_numbers_or_null() {
    assert_eq!(
        CelValue::Float("1.5".to_string()).to_json(),
        JsonValue::Number(JsonNumber::Float("1.5".to_string()))
    );
    assert_eq!(CelValue::Float("NaN".to_string()).to_json(), JsonValue::Null);
    assert_eq!(CelValue::Float("inf".to_string()).to_json(), JsonValue::Null);
}

#[test]
fn invalid_bytes_convert_to_the_replacement_mark() {
    let json = CelValue::Bytes(vec![0x66, 0x6f, 0xff, 0x6f]).to_json();
    assert_eq!(json, JsonValue::String("fo\u{FFFD}o".to_string()));
}

#[test]
fn map_keys_are_named_and_sorted() {
    let value = CelValue::Mapping(vec![
        (CelKey::String("b".to_string()), CelValue::Int(1)),
        (CelKey::Int(7), CelValue::Bool(false)),
        (CelKey::Bool(true), CelValue::Null),
        (CelKey::Uint(3), CelValue::Null),
        (CelKey::String("b".to_string()), CelValue::Int(2)),
    ]);
    assert_eq!(
        value.to_json(),
        JsonValue::Object(vec![
            ("Bool(true)".to_string(), JsonValue::Null),
            ("Int(7)".to_string(), JsonValue::Bool(false)),
            ("UInt(3)".to_string(), JsonValue::Null),
            ("b".to_string(), JsonValue::Number(JsonNumber::PosInt(2))),
        ])
    );
}

#[test]
fn valid_bytes_convert_to_their_text() {
    let json = CelValue::Bytes("h\u{e9}llo".as_bytes().to_vec()).to_json();
    assert_eq!(json, JsonValue::String("h\u{e9}llo".to_string()));
}

#[test]
fn strings_and_other_values_convert_to_strings() {
    assert_eq!(
        CelValue::String("text".to_string()).to_json(),
        JsonValue::String("text".to_string())
    );
    assert_eq!(
        CelValue::Other("Duration(TimeDelta { secs: 1, nanos: 0 })".to_string()).to_json(),
        JsonValue::String("Duration(TimeDelta { secs: 1, nanos: 0 })".to_string())
    );
}

#[test]
fn a_double_is_written_as_the_codec_writes_it() {
    assert_eq!(
        CelValue::Float("2.50".to_string()).to_json(),
        JsonValue::Number(JsonNumber::Float("2.5".to_string()))
    );
    assert_eq!(
        CelValue::Float("1e300".to_string()).to_json(),
        JsonValue::Number(JsonNumber::Float("1e+300".to_string()))
    );
    assert_eq!(
        CelValue::Float("-0.0".to_string()).to_json(),
        JsonValue::Number(JsonNumber::Float("-0.0".to_string()))
    );
    assert_eq!(CelValue::Float("-inf".to_string()).to_json(), JsonValue::Null);
}

#[test]
fn large_integers_keep_their_value() {
    assert_eq!(
        CelValue::Int(i64::MIN).to_json(),
        JsonValue::Number(JsonNumber::NegInt(i64::MIN))
    );
    assert_eq!(
        CelValue::Int(i64::MAX).to_json(),
        JsonValue::Number(JsonNumber::PosInt(i64::MAX as u64))
    );
    assert_eq!(CelValue::Int(0).to_json(), JsonValue::Number(JsonNumber::PosInt(0)));
}

#[test]
fn lists_convert_item_by_item() {
    let value = CelValue::List(vec![
        CelValue::Int(1),
        CelValue::List(vec![]),
        CelValue::Mapping(vec![]),
        CelValue::Bytes(vec![0xff]),
    ]);
    assert_eq!(
        value.to_json(),
        JsonValue::Array(vec![
            JsonValue::Number(JsonNumber::PosInt(1)),
            JsonValue::Array(vec![]),
            JsonValue::Object(vec![]),
            JsonValue::String("\u{FFFD}".to_string()),
        ])
    );
}

#[test]
fn the_name_of_a_key_is_the_same_each_time() {
    for key in [CelKey::Int(-7), CelKey::Uint(7), CelKey::Bool(false)] {
        assert_eq!(rs_cel_repl::convert::key_name(&key), rs_cel_repl::convert::key_name(&key));
    }
    assert_eq!(rs_cel_repl::convert::key_name(&CelKey::Int(-7)), "Int(-7)");
    assert_eq!(rs_cel_repl::convert::key_name(&CelKey::Uint(7)), "UInt(7)");
    assert_eq!(rs_cel_repl::convert::key_name(&CelKey::Bool(false)), "Bool(false)");
    assert_eq!(rs_cel_repl::convert::key_name(&CelKey::String("Int(-7)".to_string())), "Int(-7)");
}

#[test]
fn of_two_keys_with_one_name_the_later_counts() {
    let value = CelValue::Mapping(vec![
        (CelKey::Int(1), CelValue::Bool(true)),
        (CelKey::String("Int(1)".to_string()), CelValue::Bool(false)),
    ]);
    assert_eq!(
        value.to_json(),
        JsonValue::Object(vec![("Int(1)".to_string(), JsonValue::Bool(false))])
    );
}

#[test]
fn from_converts_as_to_json_does() {
    let json: JsonValue = CelValue::UInt(3).into();
    assert_eq!(json, JsonValue::Number(JsonNumber::PosInt(3)));
}

#[test]
fn a_converted_value_of_the_evaluator_is_written() {
    let ctx = rs_cel_repl::create_context(None).unwrap();
    let program = rs_cel_repl::compile("{'b': [1, 2.5], 'a': b'\\xff', 3: null}").unwrap();
    let json = program.execute(&ctx).unwrap().to_json();
    assert_eq!(json.to_compact(), Ok("{\"Int(3)\":null,\"a\":\"\u{FFFD}\",\"b\":[1,2.5]}".to_string()));
}

#[test]
fn the_name_of_an_integer_key_is_its_kind_and_its_decimal_text() {
    assert_eq!(rs_cel_repl::convert::key_name(&CelKey::Int(0)), "Int(0)");
    assert_eq!(
        rs_cel_repl::convert::key_name(&CelKey::Int(i64::MIN)),
        "Int(-9223372036854775808)"
    );
    assert_eq!(
        rs_cel_repl::convert::key_name(&CelKey::Int(i64::MAX)),
        "Int(9223372036854775807)"
    );
    assert_eq!(rs_cel_repl::convert::key_name(&CelKey::Uint(0)), "UInt(0)");
    assert_eq!(rs_cel_repl::convert::key_name(&CelKey::Uint(10)), "UInt(10)");
    assert_eq!(
        rs_cel_repl::convert::key_name(&CelKey::Uint(u64::MAX)),
        "UInt(18446744073709551615)"
    );
    assert_eq!(rs_cel_repl::convert::key_name(&CelKey::Bool(true)), "Bool(true)");
}

#[test]
fn from_converts_bytes_as_to_json_does() {
    let valid: JsonValue = CelValue::Bytes("na\u{ef}ve".as_bytes().to_vec()).into();
    assert_eq!(valid, JsonValue::String("na\u{ef}ve".to_string()));
    let empty: JsonValue = CelValue::Bytes(vec![]).into();
    assert_eq!(empty, JsonValue::String(String::new()));
    let broken: JsonValue = CelValue::Bytes(vec![0x61, 0xc3]).into();
    assert_eq!(broken, JsonValue::String("a\u{FFFD}".to_string()));
}
