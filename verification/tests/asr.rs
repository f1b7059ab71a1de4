use codex_cli_voice_bridge_rust::asr::{
    check_mic_upload_format, chunk_data, handshake_headers, infer_chunk_bytes,
    validate_session_options, AsrError, HandshakeError, SessionProgress,
};
use codex_cli_voice_bridge_rust::json::JsonValue;
use codex_cli_voice_bridge_rust::protocol::{
    ParsedFrame, ParsedPayload, FLAG_LAST_PACKET, FLAG_NONE, MSG_TYPE_ERROR_RESPONSE,
    MSG_TYPE_FULL_SERVER_RESPONSE,
};

fn text_frame(flags: u8, text: &str) -> ParsedFrame {
    let result = JsonValue::Object(vec![("text".to_owned(), JsonValue::Str(text.to_owned()))]);
    ParsedFrame {
        message_type: MSG_TYPE_FULL_SERVER_RESPONSE,
        flags,
        serialization: 1,
        compression: 0,
        sequence: None,
        error_code: None,
        payload_size: 0,
        payload: ParsedPayload::Json(JsonValue::Object(vec![("result".to_owned(), result)])),
    }
}

#[test]
fn chunk_bytes_follow_duration_and_format() {
    assert_eq!(infer_chunk_bytes(0, 200, 16000, 16, 1), 6400);
    assert_eq!(infer_chunk_bytes(3200, 200, 16000, 16, 1), 3200);
    assert_eq!(infer_chunk_bytes(0, 100, 8000, 24, 2), 4800);
    assert_eq!(infer_chunk_bytes(0, 0, 16000, 16, 2), 4);
    assert_eq!(infer_chunk_bytes(0, 1, 100, 12, 1), 2);
}

#[test]
fn chunks_split_in_order_with_a_short_tail() {
    let data: Vec<u8> = (1u8..=10).collect();
    let chunks = chunk_data(&data, 4);
    assert_eq!(chunks, vec![vec![1, 2, 3, 4], vec![5, 6, 7, 8], vec![9, 10]]);
    assert_eq!(chunks.concat(), data);
    assert_eq!(chunk_data(&data, 5), vec![vec![1, 2, 3, 4, 5], vec![6, 7, 8, 9, 10]]);
    assert_eq!(chunk_data(&data, 0), vec![data.clone()]);
    assert_eq!(chunk_data(&data, 64), vec![data.clone()]);
    assert!(chunk_data(&[], 4).is_empty());
}

#[test]
fn session_options_report_the_first_missing_one() {
    assert!(validate_session_options("app", "token", "res", "wss://x").is_ok());
    assert!(matches!(validate_session_options(" ", "token", "res", "wss://x"), Err(AsrError::MissingAppId)));
    assert!(matches!(validate_session_options("app", "\t", "", ""), Err(AsrError::MissingAccessToken)));
    assert!(matches!(validate_session_options("app", "token", "", ""), Err(AsrError::MissingResourceId)));
    assert!(matches!(validate_session_options("app", "token", "res", "  "), Err(AsrError::MissingWsUrl)));
}

#[test]
fn mic_sessions_upload_16_bit_mono_pcm() {
    assert!(check_mic_upload_format(" PCM ", 16, 1, 16000, 16000, 1).is_ok());
    assert!(matches!(check_mic_upload_format("wav", 16, 1, 16000, 16000, 1), Err(AsrError::MicFormatNotPcm)));
    assert!(matches!(check_mic_upload_format("pcm", 24, 1, 16000, 16000, 1), Err(AsrError::MicBitsNot16)));
    assert!(matches!(check_mic_upload_format("pcm", 16, 2, 16000, 16000, 2), Err(AsrError::MicNotMono)));
    assert!(matches!(check_mic_upload_format("pcm", 16, 1, 16000, 48000, 1), Err(AsrError::MicTargetMismatch)));
    assert!(matches!(check_mic_upload_format("pcm", 16, 1, 16000, 16000, 2), Err(AsrError::MicTargetMismatch)));
}

#[test]
fn frames_update_the_session_result() {
    let mut progress = SessionProgress::new();
    let step = progress.absorb_frame(&text_frame(FLAG_NONE, " 你好 ")).ok().unwrap();
    assert_eq!(step.text.as_deref(), Some("你好"));
    assert!(!step.is_final);
    assert_eq!(progress.final_text, "你好");
    assert!(!progress.got_final);

    let step = progress.absorb_frame(&text_frame(FLAG_NONE, "   ")).ok().unwrap();
    assert!(step.text.is_none());
    assert_eq!(progress.final_text, "你好");

    let step = progress.absorb_frame(&text_frame(FLAG_LAST_PACKET, "你好世界")).ok().unwrap();
    assert!(step.is_final);
    assert!(progress.got_final);
    assert_eq!(progress.final_text, "你好世界");
}

#[test]
fn an_error_frame_ends_the_session_with_its_code() {
    let mut progress = SessionProgress::new();
    let frame = ParsedFrame {
        message_type: MSG_TYPE_ERROR_RESPONSE,
        flags: 0,
        serialization: 0,
        compression: 0,
        sequence: None,
        error_code: Some(45000002),
        payload_size: 0,
        payload: ParsedPayload::Binary(b"bad".to_vec()),
    };
    assert!(matches!(progress.absorb_frame(&frame), Err(AsrError::ServerError(Some(45000002)))));
    assert!(!progress.got_final);
    assert_eq!(progress.final_text, "");
}

#[test]
fn handshake_headers_carry_the_trimmed_credentials() {
    let headers = handshake_headers(" app ", "tok\t", " volc.seedasr.sauc.duration", "c-1").ok().unwrap();
    let pairs: Vec<(&str, &str)> = headers.iter().map(|(k, v)| (k.as_str(), v.as_str())).collect();
    assert_eq!(
        pairs,
        vec![
            ("X-Api-App-Key", "app"),
            ("X-Api-Access-Key", "tok"),
            ("X-Api-Resource-Id", "volc.seedasr.sauc.duration"),
            ("X-Api-Connect-Id", "c-1"),
        ]
    );
    assert!(handshake_headers("a", "to\u{7f}k", "r", "c").is_err());
    assert!(matches!(handshake_headers("a\nb", "t", "r", "c"), Err(HandshakeError::InvalidAppId)));
    assert!(matches!(handshake_headers("a", "t\u{1}x", "r", "c"), Err(HandshakeError::InvalidAccessToken)));
    assert!(matches!(handshake_headers("a", "t", "r\rx", "c"), Err(HandshakeError::InvalidResourceId)));
    assert!(matches!(handshake_headers("a", "t", "r", " c\n"), Err(HandshakeError::InvalidConnectId)));
    assert!(handshake_headers("ä", "t\tx", "r", "c").is_ok());
}
