use codecrafters_bittorrent::bencode::{
    decode, encode, encode_json, parse_bytes, parse_string, BencodeError, BencodeParser,
    BencodeValue, EncodeError, JsonValue,
};
use codecrafters_bittorrent::utils::RawStringExt;

fn bytes(text: &str) -> BencodeValue {
    BencodeValue::Bytes(text.as_bytes().to_vec())
}

fn entry(key: &str, value: BencodeValue) -> (Vec<u8>, BencodeValue) {
    (key.as_bytes().to_vec(), value)
}

#[test]
fn decode_parses_simple_string() {
    assert_eq!(parse_string("5:hello"), Ok(bytes("hello")));
}

#[test]
fn decode_parses_negative_integer() {
    assert_eq!(parse_string("i-42e"), Ok(BencodeValue::Integer(-42)));
}

#[test]
fn decode_parses_mixed_list() {
    assert_eq!(
        parse_string("l5:helloi42ee"),
        Ok(BencodeValue::List(vec![bytes("hello"), BencodeValue::Integer(42)]))
    );
}

#[test]
fn decode_parses_dictionary_with_multiple_value_types() {
    assert_eq!(
        parse_string("d3:bar4:spam3:fooi42ee"),
        Ok(BencodeValue::Dict(vec![
            entry("bar", bytes("spam")),
            entry("foo", BencodeValue::Integer(42)),
        ]))
    );
}

#[test]
fn decode_parses_nested_structures() {
    assert_eq!(
        parse_string("d4:listl4:spam4:eggse4:nestd3:key5:valueee"),
        Ok(BencodeValue::Dict(vec![
            entry("list", BencodeValue::List(vec![bytes("spam"), bytes("eggs")])),
            entry("nest", BencodeValue::Dict(vec![entry("key", bytes("value"))])),
        ]))
    );
}

#[test]
fn decode_dictionary_requires_string_keys() {
    let mut parser = BencodeParser::new(b"di1ei1ee".to_vec());
    assert_eq!(parser.parse_value(), Err(BencodeError::NonStringKey));
}

#[test]
fn decode_ensure_consumed_detects_trailing_data() {
    let mut parser = BencodeParser::new(b"5:helloi1e".to_vec());
    assert_eq!(parser.parse_value(), Ok(bytes("hello")));
    assert_eq!(parser.ensure_consumed(), Err(BencodeError::TrailingData));
}

#[test]
fn parses_simple_string() {
    assert_eq!(parse_bytes(b"5:hello".to_vec()), Ok(bytes("hello")));
}

#[test]
fn parses_negative_integer() {
    assert_eq!(parse_bytes(b"i-42e".to_vec()), Ok(BencodeValue::Integer(-42)));
}

#[test]
fn parses_mixed_list() {
    assert_eq!(
        parse_bytes(b"l5:helloi42ee".to_vec()),
        Ok(BencodeValue::List(vec![bytes("hello"), BencodeValue::Integer(42)]))
    );
}

#[test]
fn parses_dictionary_with_multiple_value_types() {
    assert_eq!(
        parse_bytes(b"d3:bar4:spam3:fooi42ee".to_vec()),
        Ok(BencodeValue::Dict(vec![
            entry("bar", bytes("spam")),
            entry("foo", BencodeValue::Integer(42)),
        ]))
    );
}

#[test]
fn parses_nested_structures() {
    assert_eq!(
        parse_bytes(b"d4:listl4:spam4:eggse4:nestd3:key5:valueee".to_vec()),
        Ok(BencodeValue::Dict(vec![
            entry("list", BencodeValue::List(vec![bytes("spam"), bytes("eggs")])),
            entry("nest", BencodeValue::Dict(vec![entry("key", bytes("value"))])),
        ]))
    );
}

#[test]
fn dictionary_requires_string_keys() {
    assert_eq!(decode(b"di1ei1ee"), Err(BencodeError::NonStringKey));
}

#[test]
fn ensure_consumed_detects_trailing_data() {
    assert_eq!(decode(b"5:helloi1e"), Err(BencodeError::TrailingData));
}

fn number(n: i64) -> JsonValue {
    JsonValue::Number(Some(n))
}

fn text(value: &str) -> JsonValue {
    JsonValue::Text(value.to_string())
}

#[test]
fn bencode_encodes_int() {
    let value = number(42);
    let encoded = encode_json(&value).unwrap();
    assert_eq!(String::from_utf8(encoded).unwrap(), "i42e");
}

#[test]
fn bencode_encodes_bool_true() {
    let value = JsonValue::Bool(true);
    let encoded = encode_json(&value).unwrap();
    assert_eq!(String::from_utf8(encoded).unwrap(), "i1e");
}

#[test]
fn bencode_encodes_bool_false() {
    let value = JsonValue::Bool(false);
    let encoded = encode_json(&value).unwrap();
    assert_eq!(String::from_utf8(encoded).unwrap(), "i0e");
}

#[test]
fn bencode_encodes_list() {
    let value = JsonValue::Array(vec![number(1), text("two"), number(3)]);
    let encoded = encode_json(&value).unwrap();
    assert_eq!(String::from_utf8(encoded).unwrap(), "li1e3:twoi3ee");
}

#[test]
fn bencode_encodes_dictionary() {
    let value = JsonValue::Object(vec![
        ("age".to_string(), number(30)),
        ("name".to_string(), text("Alice")),
    ]);
    let encoded = encode_json(&value).unwrap();
    assert_eq!(
        String::from_utf8(encoded).unwrap(),
        "d3:agei30e4:name5:Alicee"
    );
}

#[test]
fn bencode_encodes_ascii_string_using_original_text() {
    let value = text("hello");
    let encoded = encode_json(&value).unwrap();
    assert_eq!(String::from_utf8(encoded).unwrap(), "5:hello");
}

#[test]
fn bencode_encodes_multibyte_string_using_character_count() {
    let original = "Ã©Ã¼ðŸ˜Š";
    // One character per byte.
    let s: String = original.as_bytes().to_raw_string();
    let value = JsonValue::Text(s);
    let encoded = encode_json(&value);

    let expected_len = original.len();
    let mut expected = format!("{}:", expected_len).into_bytes();
    expected.extend_from_slice(original.as_bytes());

    assert_eq!(encoded.unwrap(), expected);
}

#[test]
fn bencode_encoder_encodes_int() {
    let value = number(42);
    let encoded = encode_json(&value).unwrap();
    assert_eq!(String::from_utf8(encoded).unwrap(), "i42e");
}

#[test]
fn bencode_encoder_encodes_bool_true() {
    let value = JsonValue::Bool(true);
    let encoded = encode_json(&value).unwrap();
    assert_eq!(String::from_utf8(encoded).unwrap(), "i1e");
}

#[test]
fn bencode_encoder_encodes_bool_false() {
    let value = JsonValue::Bool(false);
    let encoded = encode_json(&value).unwrap();
    assert_eq!(String::from_utf8(encoded).unwrap(), "i0e");
}

#[test]
fn bencode_encoder_encodes_list() {
    let value = JsonValue::Array(vec![number(1), text("two"), number(3)]);
    let encoded = encode_json(&value).unwrap();
    assert_eq!(String::from_utf8(encoded).unwrap(), "li1e3:twoi3ee");
}

#[test]
fn bencode_encoder_encodes_dictionary() {
    let value = JsonValue::Object(vec![
        ("age".to_string(), number(30)),
        ("name".to_string(), text("Alice")),
    ]);
    let encoded = encode_json(&value).unwrap();
    assert_eq!(
        String::from_utf8(encoded).unwrap(),
        "d3:agei30e4:name5:Alicee"
    );
}

#[test]
fn bencode_encoder_encodes_ascii_string_using_original_text() {
    let value = text("hello");
    let encoded = encode_json(&value).unwrap();
    assert_eq!(String::from_utf8(encoded).unwrap(), "5:hello");
}

#[test]
fn bencode_encoder_encodes_multibyte_string_using_character_count() {
    let original = "éü😊";
    let s: String = original.as_bytes().to_raw_string();
    let value = JsonValue::Text(s);
    let encoded = encode_json(&value).unwrap();

    let expected_len = original.len();
    let mut expected = format!("{}:", expected_len).into_bytes();
    expected.extend_from_slice(original.as_bytes());

    assert_eq!(encoded, expected);
}

#[test]
fn json_null_is_the_empty_list_and_other_numbers_are_refused() {
    assert_eq!(encode_json(&JsonValue::Null), Ok(b"le".to_vec()));
    assert_eq!(encode_json(&JsonValue::Number(None)), Err(EncodeError::NotAnInteger));
    assert_eq!(
        encode_json(&JsonValue::Array(vec![number(1), JsonValue::Number(None)])),
        Err(EncodeError::NotAnInteger)
    );
    assert_eq!(
        encode_json(&JsonValue::Object(vec![
            ("a".to_string(), JsonValue::Array(vec![JsonValue::Number(None)])),
        ])),
        Err(EncodeError::NotAnInteger)
    );
    assert_eq!(
        encode_json(&JsonValue::Number(Some(i64::MIN))),
        Ok(b"i-9223372036854775808e".to_vec())
    );
}

#[test]
fn json_objects_are_written_in_the_order_of_their_names() {
    let value = JsonValue::Object(vec![
        ("name".to_string(), text("Alice")),
        ("age".to_string(), number(30)),
        ("name".to_string(), JsonValue::Null),
        ("".to_string(), JsonValue::Bool(true)),
    ]);
    assert_eq!(encode_json(&value), Ok(b"d0:i1e3:agei30e4:namelee".to_vec()));
}

#[test]
fn values_are_encoded_as_they_are() {
    assert_eq!(encode(&BencodeValue::Integer(42)), b"i42e".to_vec());
    assert_eq!(encode(&bytes("hello")), b"5:hello".to_vec());
    let list = BencodeValue::List(vec![
        BencodeValue::Integer(1),
        bytes("two"),
        BencodeValue::Integer(3),
    ]);
    assert_eq!(encode(&list), b"li1e3:twoi3ee".to_vec());
    let dictionary = BencodeValue::Dict(vec![
        entry("age", BencodeValue::Integer(30)),
        entry("name", bytes("Alice")),
    ]);
    assert_eq!(encode(&dictionary), b"d3:agei30e4:name5:Alicee".to_vec());
}

#[test]
fn decode_orders_keys_and_keeps_the_last_of_equal_ones() {
    assert_eq!(
        decode(b"d1:bi1e1:ai2e1:bi3ee"),
        Ok(BencodeValue::Dict(vec![
            entry("a", BencodeValue::Integer(2)),
            entry("b", BencodeValue::Integer(3)),
        ]))
    );
}

#[test]
fn decode_orders_a_prefix_before_the_longer_key() {
    assert_eq!(
        decode(b"d2:abi1e1:ai2e0:i3ee"),
        Ok(BencodeValue::Dict(vec![
            entry("", BencodeValue::Integer(3)),
            entry("a", BencodeValue::Integer(2)),
            entry("ab", BencodeValue::Integer(1)),
        ]))
    );
}

#[test]
fn decode_reports_each_error() {
    assert_eq!(decode(b""), Err(BencodeError::UnexpectedEnd));
    assert_eq!(decode(b"x"), Err(BencodeError::UnhandledPrefix));
    assert_eq!(decode(b"5hello"), Err(BencodeError::MissingColon));
    assert_eq!(decode(b"5x:hello"), Err(BencodeError::InvalidLength));
    assert_eq!(
        decode(b"99999999999999999999999999:a"),
        Err(BencodeError::InvalidLength)
    );
    assert_eq!(decode(b"6:hello"), Err(BencodeError::LengthExceedsInput));
    assert_eq!(decode(b"i42"), Err(BencodeError::MissingIntegerEnd));
    assert_eq!(decode(b"ie"), Err(BencodeError::InvalidInteger));
    assert_eq!(decode(b"i-e"), Err(BencodeError::InvalidInteger));
    assert_eq!(decode(b"i4x2e"), Err(BencodeError::InvalidInteger));
    assert_eq!(
        decode(b"i9223372036854775808e"),
        Err(BencodeError::InvalidInteger)
    );
    assert_eq!(decode(b"li1e"), Err(BencodeError::UnterminatedList));
    assert_eq!(decode(b"d1:ai1e"), Err(BencodeError::UnterminatedDictionary));
    assert_eq!(decode(b"d1:a"), Err(BencodeError::UnexpectedEnd));
    assert_eq!(decode(b"dlei1ee"), Err(BencodeError::NonStringKey));
    assert_eq!(decode(b"i1ei2e"), Err(BencodeError::TrailingData));
}

#[test]
fn decode_reads_the_limits_of_integers() {
    assert_eq!(
        decode(b"i9223372036854775807e"),
        Ok(BencodeValue::Integer(i64::MAX))
    );
    assert_eq!(
        decode(b"i-9223372036854775808e"),
        Ok(BencodeValue::Integer(i64::MIN))
    );
    assert_eq!(decode(b"i+7e"), Ok(BencodeValue::Integer(7)));
    assert_eq!(decode(b"i-0e"), Ok(BencodeValue::Integer(0)));
    assert_eq!(decode(b"i007e"), Ok(BencodeValue::Integer(7)));
    assert_eq!(decode(b"0:"), Ok(BencodeValue::Bytes(vec![])));
}

#[test]
fn encode_writes_the_limits_of_integers() {
    assert_eq!(
        encode(&BencodeValue::Integer(i64::MIN)),
        b"i-9223372036854775808e".to_vec()
    );
    assert_eq!(
        encode(&BencodeValue::Integer(i64::MAX)),
        b"i9223372036854775807e".to_vec()
    );
    assert_eq!(encode(&BencodeValue::List(vec![])), b"le".to_vec());
    assert_eq!(encode(&BencodeValue::Dict(vec![])), b"de".to_vec());
}

#[test]
fn canonical_bytes_round_trip() {
    let inputs: Vec<&[u8]> = vec![
        b"i0e",
        b"i-17e",
        b"0:",
        b"4:\x00\xff\x01e",
        b"le",
        b"de",
        b"ll1:aeli1ei2eee",
        b"d1:ad1:bleee",
        b"d4:infod6:lengthi92063e12:piece lengthi32768eee",
    ];
    for input in inputs {
        let value = decode(input).unwrap();
        assert_eq!(encode(&value), input.to_vec());
    }
}

#[test]
fn values_round_trip() {
    let value = BencodeValue::Dict(vec![
        entry("a", BencodeValue::List(vec![BencodeValue::Integer(-5), bytes("")])),
        entry("b", BencodeValue::Dict(vec![entry("c", bytes("d"))])),
    ]);
    let encoded = encode(&value);
    assert_eq!(decode(&encoded), Ok(value));
}

#[test]
fn encoding_agrees_with_serde_bencode() {
    let input: &[u8] = b"d1:ai-3e1:bl3:xyzi0ee1:cd1:d0:ee";
    let ours = decode(input).unwrap();
    let theirs: serde_bencode::value::Value = serde_bencode::from_bytes(input).unwrap();
    assert_eq!(encode(&ours), serde_bencode::to_bytes(&theirs).unwrap());
}

#[test]
fn lookup_finds_the_value_of_a_key() {
    let value = decode(b"d3:bar4:spam3:fooi42ee").unwrap();
    assert_eq!(value.get(b"foo"), Some(&BencodeValue::Integer(42)));
    assert_eq!(value.get(b"bar").and_then(|v| v.as_bytes()), Some(&b"spam".to_vec()));
    assert_eq!(value.get(b"baz"), None);
    assert_eq!(BencodeValue::Integer(1).get(b"foo"), None);
    assert_eq!(BencodeValue::Integer(9).as_integer(), Some(9));
    assert_eq!(bytes("x").as_integer(), None);
}
