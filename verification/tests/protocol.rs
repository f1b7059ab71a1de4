use codex_cli_voice_bridge_rust::json::JsonValue;
use codex_cli_voice_bridge_rust::protocol::{
    build_audio_request, build_full_client_request, build_full_payload, build_header, extract_text,
    frame_to_json_value, hotwords_context, static_corpus_context, CorpusOptions,
    gzip_compress, is_final_frame, parse_response_frame, ParsedPayload, ProtocolError,
    RequestAudioOptions, RequestRuntimeOptions, COMPRESSION_GZIP, COMPRESSION_NONE,
    FLAG_LAST_PACKET, FLAG_NEG_SEQUENCE, FLAG_POS_SEQUENCE, MSG_TYPE_AUDIO_ONLY_REQUEST,
    MSG_TYPE_ERROR_RESPONSE, MSG_TYPE_FULL_CLIENT_REQUEST, MSG_TYPE_FULL_SERVER_RESPONSE,
    SERIALIZATION_JSON, SERIALIZATION_NONE,
};

fn frame(message_type: u8, flags: u8, serialization: u8, compression: u8, extra: &[u8], payload: &[u8]) -> Vec<u8> {
    let mut out = Vec::new();
    out.extend_from_slice(&build_header(message_type, flags, serialization, compression));
    out.extend_from_slice(extra);
    out.extend_from_slice(&(payload.len() as u32).to_be_bytes());
    out.extend_from_slice(payload);
    out
}

fn to_serde(value: &JsonValue) -> serde_json::Value {
    match value {
        JsonValue::Null => serde_json::Value::Null,
        JsonValue::Bool(b) => serde_json::Value::Bool(*b),
        JsonValue::Number(n) => serde_json::Value::Number(n.parse().unwrap()),
        JsonValue::Str(s) => serde_json::Value::String(s.clone()),
        JsonValue::Array(items) => serde_json::Value::Array(items.iter().map(to_serde).collect()),
        JsonValue::Object(entries) => {
            serde_json::Value::Object(entries.iter().map(|(k, v)| (k.clone(), to_serde(v))).collect())
        }
    }
}

fn no_corpus() -> CorpusOptions {
    CorpusOptions {
        boosting_table_name: None,
        boosting_table_id: None,
        correct_table_name: None,
        correct_table_id: None,
        context: None,
    }
}

fn json_bytes(value: &serde_json::Value) -> Vec<u8> {
    serde_json::to_vec(value).unwrap()
}

fn object(entries: Vec<(&str, serde_json::Value)>) -> serde_json::Value {
    let mut map = serde_json::Map::new();
    for (k, v) in entries {
        map.insert(k.to_owned(), v);
    }
    serde_json::Value::Object(map)
}

#[test]
fn build_header_encodes_expected_nibbles() {
    let header = build_header(
        MSG_TYPE_AUDIO_ONLY_REQUEST,
        FLAG_LAST_PACKET,
        SERIALIZATION_NONE,
        COMPRESSION_GZIP,
    );
    assert_eq!(header[0], 0x11);
    assert_eq!(header[1], 0x22);
    assert_eq!(header[2], 0x01);
    assert_eq!(header[3], 0x00);
}

#[test]
fn parse_response_frame_decodes_gzip_json_payload() {
    let payload = object(vec![(
        "result",
        object(vec![("text", serde_json::Value::String("你好，世界".to_owned()))]),
    )]);
    let payload_bytes = json_bytes(&payload);
    let payload_gz = gzip_compress(&payload_bytes).ok().unwrap();

    let mut frame = Vec::new();
    frame.extend_from_slice(&build_header(
        MSG_TYPE_FULL_SERVER_RESPONSE,
        FLAG_LAST_PACKET,
        SERIALIZATION_JSON,
        COMPRESSION_GZIP,
    ));
    frame.extend_from_slice(&(payload_gz.len() as u32).to_be_bytes());
    frame.extend_from_slice(&payload_gz);

    let parsed = parse_response_frame(&frame).ok().unwrap();
    assert!(is_final_frame(&parsed));
    assert_eq!(extract_text(&parsed.payload), "你好，世界");
}

#[test]
fn build_header_masks_each_field_to_four_bits() {
    let header = build_header(0xF9, 0x13, 0x21, 0xFF);
    assert_eq!(header, [0x11, 0x93, 0x1F, 0x00]);
}

#[test]
fn audio_request_round_trips_through_the_frame_decoder() {
    let chunk: Vec<u8> = (0u8..=255).cycle().take(1000).collect();
    let out = build_audio_request(&chunk, true).ok().unwrap();
    assert_eq!(&out[..4], &[0x11, 0x22, 0x01, 0x00]);
    let parsed = parse_response_frame(&out).ok().unwrap();
    assert_eq!(parsed.message_type, MSG_TYPE_AUDIO_ONLY_REQUEST);
    assert_eq!(parsed.flags, FLAG_LAST_PACKET);
    assert_eq!(parsed.sequence, None);
    assert_eq!(parsed.error_code, None);
    assert_eq!(parsed.payload_size as usize, out.len() - 8);
    match parsed.payload {
        ParsedPayload::Binary(data) => assert_eq!(data, chunk),
        ParsedPayload::Json(_) => panic!("expected a binary payload"),
    }
    let not_last = build_audio_request(&chunk, false).ok().unwrap();
    assert_eq!(not_last[1], 0x20);
}

#[test]
fn full_client_request_frames_the_gzipped_payload() {
    let audio = RequestAudioOptions {
        audio_format: "pcm".to_owned(),
        sample_rate: 16000,
        bits: 16,
        channels: 1,
        language: Some("  ".to_owned()),
    };
    let request = RequestRuntimeOptions {
        uid: "uid-1".to_owned(),
        model_name: " ".to_owned(),
        enable_itn: true,
        enable_punc: true,
        enable_ddc: false,
        enable_nonstream: true,
        show_utterances: true,
        result_type: "full".to_owned(),
        corpus: no_corpus(),
    };
    let payload = build_full_payload(&audio, &request);
    let out = build_full_client_request(&payload).ok().unwrap();
    assert_eq!(&out[..4], &[0x11, 0x10, 0x11, 0x00]);
    let size = u32::from_be_bytes([out[4], out[5], out[6], out[7]]) as usize;
    assert_eq!(size, out.len() - 8);
    let parsed = parse_response_frame(&out).ok().unwrap();
    assert_eq!(parsed.message_type, MSG_TYPE_FULL_CLIENT_REQUEST);
    let ParsedPayload::Json(value) = parsed.payload else {
        panic!("expected JSON");
    };
    let request_obj = value.get("request").unwrap();
    let model = request_obj.get("model_name").unwrap().as_str().unwrap();
    assert_eq!(model, "bigmodel");
    let audio_obj = value.get("audio").unwrap();
    assert!(audio_obj.get("language").is_none());
    match audio_obj.get("rate").unwrap() {
        JsonValue::Number(n) => assert_eq!(n, "16000"),
        _ => panic!("rate is a number"),
    }
    assert_eq!(value.get("user").unwrap().get("uid").unwrap().as_str().unwrap(), "uid-1");
}

#[test]
fn full_payload_keeps_a_language_and_model() {
    let audio = RequestAudioOptions {
        audio_format: "pcm".to_owned(),
        sample_rate: 8000,
        bits: 16,
        channels: 2,
        language: Some("zh-CN".to_owned()),
    };
    let request = RequestRuntimeOptions {
        uid: "u".to_owned(),
        model_name: "bigmodel_nostream".to_owned(),
        enable_itn: false,
        enable_punc: false,
        enable_ddc: true,
        enable_nonstream: false,
        show_utterances: false,
        result_type: "single".to_owned(),
        corpus: no_corpus(),
    };
    let payload = build_full_payload(&audio, &request);
    let audio_obj = payload.get("audio").unwrap();
    assert_eq!(audio_obj.get("language").unwrap().as_str().unwrap(), "zh-CN");
    match audio_obj.get("channel").unwrap() {
        JsonValue::Number(n) => assert_eq!(n, "2"),
        _ => panic!("channel is a number"),
    }
    let req = payload.get("request").unwrap();
    assert_eq!(req.get("model_name").unwrap().as_str().unwrap(), "bigmodel_nostream");
    assert!(matches!(req.get("enable_ddc").unwrap(), JsonValue::Bool(true)));
}

#[test]
fn sequence_and_error_fields_are_read() {
    let body = json_bytes(&object(vec![("text", serde_json::Value::String(" hi ".to_owned()))]));
    let f = frame(MSG_TYPE_FULL_SERVER_RESPONSE, FLAG_POS_SEQUENCE, SERIALIZATION_JSON, COMPRESSION_NONE, &7i32.to_be_bytes(), &body);
    let parsed = parse_response_frame(&f).ok().unwrap();
    assert_eq!(parsed.sequence, Some(7));
    assert!(!is_final_frame(&parsed));
    assert_eq!(extract_text(&parsed.payload), "hi");

    let f = frame(MSG_TYPE_FULL_SERVER_RESPONSE, FLAG_NEG_SEQUENCE, SERIALIZATION_JSON, COMPRESSION_NONE, &(-3i32).to_be_bytes(), &body);
    let parsed = parse_response_frame(&f).ok().unwrap();
    assert_eq!(parsed.sequence, Some(-3));
    assert!(is_final_frame(&parsed));

    let f = frame(MSG_TYPE_ERROR_RESPONSE, 0, SERIALIZATION_NONE, COMPRESSION_NONE, &45000001u32.to_be_bytes(), b"boom");
    let parsed = parse_response_frame(&f).ok().unwrap();
    assert_eq!(parsed.error_code, Some(45000001));
    assert!(matches!(parsed.payload, ParsedPayload::Binary(ref b) if b == b"boom"));
}

#[test]
fn malformed_frames_are_refused_with_the_first_failing_check() {
    assert!(matches!(parse_response_frame(&[0x11, 0, 0]), Err(ProtocolError::InvalidFrameLength(3))));
    assert!(matches!(parse_response_frame(&[0x21, 0, 0, 0, 0, 0, 0, 0]), Err(ProtocolError::UnsupportedVersion(2))));
    assert!(matches!(parse_response_frame(&[0x10, 0, 0, 0, 0, 0, 0, 0]), Err(ProtocolError::InvalidHeaderSize)));
    assert!(matches!(parse_response_frame(&[0x13, 0, 0, 0, 0, 0, 0, 0]), Err(ProtocolError::InvalidHeaderSize)));
    let short_size = [0x11, 0x91, 0x00, 0x00, 0, 0, 0, 1];
    assert!(matches!(parse_response_frame(&short_size), Err(ProtocolError::MissingPayloadSize)));
    let mismatch = [0x11, 0x90, 0x00, 0x00, 0, 0, 0, 5, 1, 2];
    assert!(matches!(parse_response_frame(&mismatch), Err(ProtocolError::PayloadSizeMismatch)));
    let f = frame(MSG_TYPE_FULL_SERVER_RESPONSE, 0, SERIALIZATION_NONE, 0x2, &[], b"x");
    assert!(matches!(parse_response_frame(&f), Err(ProtocolError::UnsupportedCompression(2))));
    let f = frame(MSG_TYPE_FULL_SERVER_RESPONSE, 0, 0x3, COMPRESSION_NONE, &[], b"x");
    assert!(matches!(parse_response_frame(&f), Err(ProtocolError::UnsupportedSerialization(3))));
    let f = frame(MSG_TYPE_FULL_SERVER_RESPONSE, 0, SERIALIZATION_NONE, COMPRESSION_GZIP, &[], b"not gzip");
    assert!(matches!(parse_response_frame(&f), Err(ProtocolError::Gzip(_))));
    let f = frame(MSG_TYPE_FULL_SERVER_RESPONSE, 0, SERIALIZATION_JSON, COMPRESSION_NONE, &[], b"{oops");
    assert!(matches!(parse_response_frame(&f), Err(ProtocolError::InvalidJson(_))));
}

#[test]
fn extract_text_joins_result_chunks_and_falls_back_to_text() {
    let chunks = object(vec![(
        "result",
        serde_json::Value::Array(vec![
            object(vec![("text", serde_json::Value::String(" 你好 ".to_owned()))]),
            object(vec![("text", serde_json::Value::String("   ".to_owned()))]),
            object(vec![("other", serde_json::Value::Bool(true))]),
            object(vec![("text", serde_json::Value::String("世界".to_owned()))]),
        ]),
    )]);
    let f = frame(MSG_TYPE_FULL_SERVER_RESPONSE, 0, SERIALIZATION_JSON, COMPRESSION_NONE, &[], &json_bytes(&chunks));
    let parsed = parse_response_frame(&f).ok().unwrap();
    assert_eq!(extract_text(&parsed.payload), "你好世界");

    let empty_chunks = object(vec![
        ("result", serde_json::Value::Array(vec![])),
        ("text", serde_json::Value::String("\tfallback\n".to_owned())),
    ]);
    let f = frame(MSG_TYPE_FULL_SERVER_RESPONSE, 0, SERIALIZATION_JSON, COMPRESSION_NONE, &[], &json_bytes(&empty_chunks));
    let parsed = parse_response_frame(&f).ok().unwrap();
    assert_eq!(extract_text(&parsed.payload), "fallback");

    assert_eq!(extract_text(&ParsedPayload::Binary(vec![1, 2, 3])), "");
    let f = frame(MSG_TYPE_FULL_SERVER_RESPONSE, 0, SERIALIZATION_JSON, COMPRESSION_NONE, &[], b"{\"result\":{\"x\":1}}");
    let parsed = parse_response_frame(&f).ok().unwrap();
    assert_eq!(extract_text(&parsed.payload), "");
}

#[test]
fn gzip_output_is_a_gzip_stream_of_the_input() {
    let data = b"voice bridge voice bridge voice bridge".to_vec();
    let gz = gzip_compress(&data).ok().unwrap();
    assert_eq!(&gz[..2], &[0x1f, 0x8b]);
    assert_ne!(gz, data);
    let f = frame(MSG_TYPE_FULL_SERVER_RESPONSE, 0, SERIALIZATION_NONE, COMPRESSION_GZIP, &[], &gz);
    let parsed = parse_response_frame(&f).ok().unwrap();
    assert!(matches!(parsed.payload, ParsedPayload::Binary(ref b) if *b == data));
    let bad = frame(MSG_TYPE_FULL_SERVER_RESPONSE, 0, SERIALIZATION_NONE, COMPRESSION_GZIP, &[], b"not gzip");
    assert!(matches!(parse_response_frame(&bad), Err(ProtocolError::Gzip(_))));
}

#[test]
fn frames_are_logged_as_json_with_base64_binary_payloads() {
    let f = frame(MSG_TYPE_ERROR_RESPONSE, 0, SERIALIZATION_NONE, COMPRESSION_NONE, &45000001u32.to_be_bytes(), b"boom");
    let parsed = parse_response_frame(&f).ok().unwrap();
    let logged = frame_to_json_value(&parsed);
    let value = to_serde(&logged);
    let expected = object(vec![
        ("message_type", serde_json::Value::from(15)),
        ("flags", serde_json::Value::from(0)),
        ("serialization", serde_json::Value::from(0)),
        ("compression", serde_json::Value::from(0)),
        ("sequence", serde_json::Value::Null),
        ("error_code", serde_json::Value::from(45000001u32)),
        ("payload_size", serde_json::Value::from(4)),
        ("payload", object(vec![
            ("encoding", serde_json::Value::String("base64".to_owned())),
            ("data", serde_json::Value::String("Ym9vbQ==".to_owned())),
        ])),
    ]);
    assert_eq!(value, expected);

    let body = json_bytes(&object(vec![("text", serde_json::Value::String("hi".to_owned()))]));
    let f = frame(MSG_TYPE_FULL_SERVER_RESPONSE, FLAG_NEG_SEQUENCE, SERIALIZATION_JSON, COMPRESSION_NONE, &(-2i32).to_be_bytes(), &body);
    let logged = frame_to_json_value(&parse_response_frame(&f).ok().unwrap());
    assert!(matches!(logged.get("sequence"), Some(JsonValue::Number(n)) if n == "-2"));
    assert!(matches!(logged.get("error_code"), Some(JsonValue::Null)));
    assert_eq!(logged.get("payload").unwrap().get("text").unwrap().as_str().unwrap(), "hi");
}

#[test]
fn corpus_hints_are_sent_when_set() {
    let audio = RequestAudioOptions {
        audio_format: "pcm".to_owned(),
        sample_rate: 16000,
        bits: 16,
        channels: 1,
        language: None,
    };
    let mut request = RequestRuntimeOptions {
        uid: "u".to_owned(),
        model_name: "bigmodel".to_owned(),
        enable_itn: true,
        enable_punc: true,
        enable_ddc: false,
        enable_nonstream: true,
        show_utterances: true,
        result_type: "full".to_owned(),
        corpus: no_corpus(),
    };
    assert!(build_full_payload(&audio, &request).get("request").unwrap().get("corpus").is_none());
    request.corpus.boosting_table_name = Some("  ".to_owned());
    assert!(build_full_payload(&audio, &request).get("request").unwrap().get("corpus").is_none());
    request.corpus.boosting_table_id = Some("tbl-1".to_owned());
    request.corpus.context = Some("{\"hotwords\":[]}".to_owned());
    let payload = build_full_payload(&audio, &request);
    let corpus = payload.get("request").unwrap().get("corpus").unwrap();
    let JsonValue::Object(members) = corpus else { panic!("corpus is an object") };
    let names: Vec<&str> = members.iter().map(|(k, _)| k.as_str()).collect();
    assert_eq!(names, vec!["boosting_table_id", "context"]);
    assert_eq!(corpus.get("boosting_table_id").unwrap().as_str().unwrap(), "tbl-1");
    assert_eq!(corpus.get("context").unwrap().as_str().unwrap(), "{\"hotwords\":[]}");
}

#[test]
fn hotwords_become_a_context_document() {
    let words = vec![" OfficePLUS ".to_owned(), " ".to_owned(), "希沃白板".to_owned()];
    assert_eq!(
        hotwords_context(&words).unwrap(),
        "{\"hotwords\":[{\"word\":\"OfficePLUS\"},{\"word\":\"希沃白板\"}]}"
    );
    assert!(hotwords_context(&vec![" ".to_owned()]).is_none());
    assert_eq!(static_corpus_context(" {\"a\":1} ", &words).unwrap(), "{\"a\":1}");
    assert_eq!(static_corpus_context("", &words), hotwords_context(&words));
    assert!(static_corpus_context("  ", &vec![]).is_none());
}
