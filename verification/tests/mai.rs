use codex_cli_voice_bridge_rust::json::JsonValue;
use codex_cli_voice_bridge_rust::mai::{
    build_transcribe_url, extract_transcript, guess_audio_content_type, is_retriable,
    pcm16_to_wav, retry_decision, trimmed_nonblank_strings, AttemptFailure, MaiError, MaiOptions,
    RetryDecision, DEFAULT_MAI_API_VERSION, DEFAULT_MAI_MODEL, MAI_MODEL_V1, MAX_MAI_PHRASES,
};

fn options() -> MaiOptions {
    MaiOptions {
        endpoint: "https://example.cognitiveservices.azure.com/".to_owned(),
        key: "k".to_owned(),
        api_version: DEFAULT_MAI_API_VERSION.to_owned(),
        model: DEFAULT_MAI_MODEL.to_owned(),
        locales: vec![],
        style: "default".to_owned(),
        phrases: vec![],
        max_retries: 2,
    }
}

fn strings(list: &[&str]) -> Vec<String> {
    list.iter().map(|s| s.to_string()).collect()
}

fn str_items(v: &JsonValue) -> Vec<String> {
    v.as_array().unwrap().iter().map(|x| x.as_str().unwrap().clone()).collect()
}

fn parse(text: &str) -> JsonValue {
    from_serde(&serde_json::from_str(text).unwrap())
}

fn from_serde(value: &serde_json::Value) -> JsonValue {
    match value {
        serde_json::Value::Null => JsonValue::Null,
        serde_json::Value::Bool(b) => JsonValue::Bool(*b),
        serde_json::Value::Number(n) => JsonValue::Number(n.to_string()),
        serde_json::Value::String(s) => JsonValue::Str(s.clone()),
        serde_json::Value::Array(items) => JsonValue::Array(items.iter().map(from_serde).collect()),
        serde_json::Value::Object(map) => {
            JsonValue::Object(map.iter().map(|(k, v)| (k.clone(), from_serde(v))).collect())
        }
    }
}


#[test]
fn options_are_validated_in_order() {
    assert!(options().validate().is_ok());
    let mut o = options();
    o.endpoint = " ".to_owned();
    assert!(matches!(o.validate(), Err(MaiError::MissingEndpoint)));
    let mut o = options();
    o.key = String::new();
    assert!(matches!(o.validate(), Err(MaiError::MissingKey)));
    let mut o = options();
    o.model = "whisper".to_owned();
    assert!(matches!(o.validate(), Err(MaiError::UnsupportedModel(m)) if m == "whisper"));
    let mut o = options();
    o.style = "fast".to_owned();
    assert!(matches!(o.validate(), Err(MaiError::UnsupportedStyle(s)) if s == "fast"));
    let mut o = options();
    o.model = MAI_MODEL_V1.to_owned();
    o.style = " verbatim ".to_owned();
    assert!(matches!(o.validate(), Err(MaiError::VerbatimNeedsV15)));
    let mut o = options();
    o.model = MAI_MODEL_V1.to_owned();
    o.phrases = strings(&["Verus"]);
    assert!(matches!(o.validate(), Err(MaiError::PhrasesNeedV15)));
    let mut o = options();
    o.phrases = vec!["p".to_owned(); MAX_MAI_PHRASES + 1];
    assert!(matches!(o.validate(), Err(MaiError::TooManyPhrases)));
    o.phrases.pop();
    assert!(o.validate().is_ok());
}

#[test]
fn the_definition_carries_locales_style_and_phrases() {
    let mut o = options();
    o.locales = strings(&[" zh-CN ", "", "en-US"]);
    o.style = "verbatim".to_owned();
    o.phrases = strings(&[" Verus ", "  "]);
    let d = o.definition().ok().unwrap();
    assert_eq!(str_items(d.get("locales").unwrap()), strings(&["zh-CN", "en-US"]));
    let mode = d.get("enhancedMode").unwrap();
    assert!(matches!(mode.get("enabled"), Some(JsonValue::Bool(true))));
    assert_eq!(mode.get("task").unwrap().as_str().unwrap(), "transcribe");
    assert_eq!(mode.get("model").unwrap().as_str().unwrap(), "mai-transcribe-1.5");
    assert_eq!(mode.get("transcribeStyle").unwrap().as_str().unwrap(), "verbatim");
    let list = d.get("phraseList").unwrap();
    assert_eq!(str_items(list.get("phrases").unwrap()), strings(&["Verus"]));
}

#[test]
fn the_definition_leaves_out_what_is_not_set() {
    let mut o = options();
    o.model = format!(" {} ", MAI_MODEL_V1);
    let d = o.definition().ok().unwrap();
    assert!(d.get("locales").is_none());
    assert!(d.get("phraseList").is_none());
    let mode = d.get("enhancedMode").unwrap();
    assert_eq!(mode.get("model").unwrap().as_str().unwrap(), "mai-transcribe-1");
    assert!(mode.get("transcribeStyle").is_none());
    let mut o = options();
    o.phrases = strings(&[" "]);
    assert!(o.definition().ok().unwrap().get("phraseList").is_none());
    let mut o = options();
    o.key = " ".to_owned();
    assert!(matches!(o.definition(), Err(MaiError::MissingKey)));
}

#[test]
fn blank_entries_are_dropped_and_the_rest_trimmed() {
    assert_eq!(trimmed_nonblank_strings(&strings(&[" a", "", " ", "b "])), strings(&["a", "b"]));
}

#[test]
fn transcripts_come_from_phrases_or_text() {
    let combined = parse(r#"{"combinedPhrases":[{"text":" 你好 "},{"text":"world"}],"phrases":[{"text":"x"}]}"#);
    assert_eq!(extract_transcript(&combined), "你好\nworld");
    let phrases = parse(r#"{"combinedPhrases":[{"text":"  "}],"phrases":[{"text":"a"},{"nope":1},{"text":"b"}]}"#);
    assert_eq!(extract_transcript(&phrases), "a\nb");
    let text = parse(r#"{"text":"  plain  "}"#);
    assert_eq!(extract_transcript(&text), "plain");
    assert_eq!(extract_transcript(&parse(r#"{"other":1}"#)), "");
}

#[test]
fn pcm_is_wrapped_in_a_wav_header() {
    let wav = pcm16_to_wav(&[1, 2, 3, 4], 16000, 16, 1);
    let mut expected = Vec::new();
    expected.extend_from_slice(b"RIFF");
    expected.extend_from_slice(&40u32.to_le_bytes());
    expected.extend_from_slice(b"WAVEfmt ");
    expected.extend_from_slice(&16u32.to_le_bytes());
    expected.extend_from_slice(&1u16.to_le_bytes());
    expected.extend_from_slice(&1u16.to_le_bytes());
    expected.extend_from_slice(&16000u32.to_le_bytes());
    expected.extend_from_slice(&32000u32.to_le_bytes());
    expected.extend_from_slice(&2u16.to_le_bytes());
    expected.extend_from_slice(&16u16.to_le_bytes());
    expected.extend_from_slice(b"data");
    expected.extend_from_slice(&4u32.to_le_bytes());
    expected.extend_from_slice(&[1, 2, 3, 4]);
    assert_eq!(wav, expected);
    let stereo = pcm16_to_wav(&[], 48000, 16, 2);
    assert_eq!(stereo.len(), 44);
    assert_eq!(&stereo[28..32], &192000u32.to_le_bytes());
    assert_eq!(&stereo[32..34], &4u16.to_le_bytes());
}

#[test]
fn content_types_follow_the_extension() {
    assert_eq!(guess_audio_content_type("a/b/clip.WAV"), "audio/wav");
    assert_eq!(guess_audio_content_type("x.mp3"), "audio/mpeg");
    assert_eq!(guess_audio_content_type("x.m4a"), "audio/mp4");
    assert_eq!(guess_audio_content_type("x.mp4"), "audio/mp4");
    assert_eq!(guess_audio_content_type("x.flac"), "audio/flac");
    assert_eq!(guess_audio_content_type("x.oga"), "audio/ogg");
    assert_eq!(guess_audio_content_type("x.webm"), "audio/webm");
    assert_eq!(guess_audio_content_type("noext"), "application/octet-stream");
    assert_eq!(guess_audio_content_type(".wav"), "application/octet-stream");
    assert_eq!(guess_audio_content_type("x.pcm"), "application/octet-stream");
}

#[test]
fn the_url_joins_endpoint_and_version() {
    let mut o = options();
    o.endpoint = " https://e.example.com// ".to_owned();
    o.api_version = " 2025-10-15 ".to_owned();
    assert_eq!(
        build_transcribe_url(&o),
        "https://e.example.com/speechtotext/transcriptions:transcribe?api-version=2025-10-15"
    );
}

#[test]
fn retries_back_off_exponentially_on_transient_failures() {
    for s in [429u16, 500, 502, 503, 504] {
        assert!(is_retriable(s));
    }
    for s in [200u16, 400, 401, 404, 501] {
        assert!(!is_retriable(s));
    }
    assert!(matches!(retry_decision(0, 3, AttemptFailure::Status(503)), RetryDecision::RetryAfterSeconds(1)));
    assert!(matches!(retry_decision(2, 3, AttemptFailure::Transport), RetryDecision::RetryAfterSeconds(4)));
    assert!(matches!(retry_decision(7, 9, AttemptFailure::Transport), RetryDecision::RetryAfterSeconds(32)));
    assert!(matches!(retry_decision(3, 3, AttemptFailure::Status(429)), RetryDecision::GiveUp));
    assert!(matches!(retry_decision(0, 3, AttemptFailure::Status(400)), RetryDecision::GiveUp));
    assert!(matches!(retry_decision(0, 0, AttemptFailure::Transport), RetryDecision::GiveUp));
}
