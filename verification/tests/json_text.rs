use codex_cli_voice_bridge_rust::json::{
    decimal_string, i32_string, join_item_texts, json_i32, json_string, json_uint, JsonValue,
};
use codex_cli_voice_bridge_rust::protocol::{
    build_full_client_request, build_header, parse_response_frame, ParsedPayload, ProtocolError,
    COMPRESSION_NONE, MSG_TYPE_FULL_SERVER_RESPONSE, SERIALIZATION_JSON,
};
use codex_cli_voice_bridge_rust::text::{
    char_is_ws, char_lower, chars_contains, chars_eq, chars_eq_str, chars_of, lower_chars,
    normalized_chars, str_is_blank, string_from_chars, to_string, trim_bounds, trim_str,
};

fn chars(s: &str) -> Vec<char> {
    s.chars().collect()
}

/// Reads JSON text the way the library reads a JSON frame payload.
fn read_json(bytes: &[u8]) -> Result<JsonValue, ProtocolError> {
    let mut frame = build_header(MSG_TYPE_FULL_SERVER_RESPONSE, 0, SERIALIZATION_JSON, COMPRESSION_NONE).to_vec();
    frame.extend_from_slice(&(bytes.len() as u32).to_be_bytes());
    frame.extend_from_slice(bytes);
    parse_response_frame(&frame).map(|parsed| match parsed.payload {
        ParsedPayload::Json(v) => v,
        ParsedPayload::Binary(_) => panic!("expected JSON"),
    })
}

#[test]
fn json_text_is_read_into_values() {
    let v = read_json(br#"{"b":[1,"x",null,true],"a":{"c":-2.5}}"#).ok().unwrap();
    let JsonValue::Object(members) = &v else { panic!("expected an object") };
    assert_eq!(members.len(), 2);
    let items = v.get("b").unwrap().as_array().unwrap();
    assert!(matches!(&items[0], JsonValue::Number(n) if n == "1"));
    assert_eq!(items[1].as_str().unwrap(), "x");
    assert!(matches!(items[2], JsonValue::Null));
    assert!(matches!(items[3], JsonValue::Bool(true)));
    assert!(matches!(v.get("a").unwrap().get("c"), Some(JsonValue::Number(n)) if n == "-2.5"));
    assert!(v.is_object());
    assert!(!items[1].is_object());
    assert!(v.get("missing").is_none());
    assert!(items[1].get("x").is_none());
}

#[test]
fn malformed_json_is_an_error() {
    assert!(matches!(read_json(b"{\"a\":"), Err(ProtocolError::InvalidJson(_))));
    assert!(matches!(read_json(b""), Err(ProtocolError::InvalidJson(_))));
    assert!(matches!(read_json(&[0xff, 0xfe]), Err(ProtocolError::InvalidJson(_))));
}

#[test]
fn values_are_written_and_read_back() {
    let v = JsonValue::Object(vec![
        ("text".to_owned(), json_string("say \"hi\"")),
        ("n".to_owned(), json_uint(42)),
        ("m".to_owned(), json_i32(-7)),
        ("list".to_owned(), JsonValue::Array(vec![JsonValue::Bool(false), JsonValue::Null])),
    ]);
    let frame = build_full_client_request(&v).ok().unwrap();
    let back = match parse_response_frame(&frame).ok().unwrap().payload {
        ParsedPayload::Json(j) => j,
        ParsedPayload::Binary(_) => panic!("expected JSON"),
    };
    assert_eq!(back.get("text").unwrap().as_str().unwrap(), "say \"hi\"");
    assert!(matches!(back.get("n"), Some(JsonValue::Number(n)) if n == "42"));
    assert!(matches!(back.get("m"), Some(JsonValue::Number(n)) if n == "-7"));
    assert_eq!(back.get("list").unwrap().as_array().unwrap().len(), 2);
    let bad = JsonValue::Number("not a number".to_owned());
    assert!(matches!(build_full_client_request(&bad), Err(ProtocolError::JsonEncoding(_))));
}

#[test]
fn a_copy_has_the_same_contents() {
    let v = read_json(br#"{"a":[{"b":"c"},2],"d":null}"#).ok().unwrap();
    let copy = v.deep_copy();
    assert_eq!(copy.get("a").unwrap().as_array().unwrap()[0].get("b").unwrap().as_str().unwrap(), "c");
    assert!(matches!(copy.get("d"), Some(JsonValue::Null)));
}

#[test]
fn item_texts_are_trimmed_and_joined() {
    let items = vec![
        JsonValue::Object(vec![("text".to_owned(), json_string(" a "))]),
        JsonValue::Object(vec![("text".to_owned(), json_string("  "))]),
        JsonValue::Object(vec![("other".to_owned(), json_string("z"))]),
        JsonValue::Str("text".to_owned()),
        JsonValue::Object(vec![("text".to_owned(), json_string("b"))]),
    ];
    assert_eq!(join_item_texts(&items, "\n"), "a\nb");
    assert_eq!(join_item_texts(&items, ""), "ab");
    assert_eq!(join_item_texts(&vec![], ","), "");
}

#[test]
fn decimal_text_of_integers() {
    assert_eq!(decimal_string(0), "0");
    assert_eq!(decimal_string(9), "9");
    assert_eq!(decimal_string(10), "10");
    assert_eq!(decimal_string(u64::MAX), "18446744073709551615");
    assert_eq!(i32_string(-45), "-45");
    assert_eq!(i32_string(i32::MAX), "2147483647");
}

#[test]
fn text_helpers_follow_std() {
    assert_eq!(chars_of("añ你"), vec!['a', 'ñ', '你']);
    assert_eq!(to_string("abc"), "abc");
    assert_eq!(string_from_chars(&chars("hello"), 1, 3), "el");
    assert!(char_is_ws('\u{3000}') && char_is_ws('\t') && !char_is_ws('x'));
    assert_eq!(char_lower('Q'), 'q');
    assert_eq!(char_lower('É'), 'É');
    assert_eq!(trim_bounds(&chars("  ab ")), (2, 4));
    assert_eq!(trim_bounds(&chars("   ")).0, trim_bounds(&chars("   ")).1);
    assert_eq!(trim_str("\u{a0} x y \n"), "x y");
    assert!(str_is_blank(" \t\n"));
    assert!(!str_is_blank(" . "));
    assert_eq!(lower_chars(&chars("AbC")), chars("abc"));
    assert_eq!(normalized_chars("  CapsLock "), chars("capslock"));
    assert!(chars_eq(&chars("ab"), &chars("ab")));
    assert!(!chars_eq(&chars("ab"), &chars("abc")));
    assert!(chars_eq_str(&chars("pcm"), "pcm"));
    assert!(chars_contains(&chars("powershell - codex"), &chars("codex")));
    assert!(chars_contains(&chars("abc"), &chars("")));
    assert!(!chars_contains(&chars("ab"), &chars("abc")));
}
