use codex_cli_voice_bridge_rust::audio::{
    check_capture_target, CaptureTargetError,
    format_preference_score, infer_capture_chunk_bytes, parse_usize, select_capture_candidate,
    select_input_device, CaptureEvent, DeviceChoice, PendingPcm, SampleFormatKind,
    StreamConfigRange, NO_AUDIO_MESSAGE,
};

fn range(channels: u16, min: u32, max: u32, format: SampleFormatKind) -> StreamConfigRange {
    StreamConfigRange { channels, min_sample_rate: min, max_sample_rate: max, format }
}

fn names(list: &[&str]) -> Vec<String> {
    list.iter().map(|s| s.to_string()).collect()
}

fn chars(s: &str) -> Vec<char> {
    s.chars().collect()
}

#[test]
fn formats_are_preferred_i16_then_f32_then_u16() {
    assert_eq!(format_preference_score(&SampleFormatKind::I16), 0);
    assert_eq!(format_preference_score(&SampleFormatKind::F32), 1);
    assert_eq!(format_preference_score(&SampleFormatKind::U16), 2);
    assert_eq!(format_preference_score(&SampleFormatKind::I32), 10);
    assert_eq!(format_preference_score(&SampleFormatKind::Other), 10);
}

#[test]
fn the_best_fitting_range_is_selected() {
    let ranges = vec![
        range(1, 8000, 48000, SampleFormatKind::U16),
        range(2, 8000, 48000, SampleFormatKind::I16),
        range(1, 44100, 48000, SampleFormatKind::I16),
        range(1, 8000, 48000, SampleFormatKind::F32),
        range(1, 16000, 16000, SampleFormatKind::I16),
        range(1, 8000, 96000, SampleFormatKind::I16),
    ];
    assert_eq!(select_capture_candidate(&ranges, 16000, 1), Some(4));
    assert_eq!(select_capture_candidate(&ranges, 44100, 1), Some(2));
    assert_eq!(select_capture_candidate(&ranges, 16000, 2), Some(1));
    assert_eq!(select_capture_candidate(&ranges, 16000, 3), None);
    let fallback = vec![range(1, 8000, 48000, SampleFormatKind::U16), range(1, 8000, 48000, SampleFormatKind::F32)];
    assert_eq!(select_capture_candidate(&fallback, 16000, 1), Some(1));
}

#[test]
fn capture_chunks_hold_the_configured_duration() {
    assert_eq!(infer_capture_chunk_bytes(0, 200, 16000, 1), 6400);
    assert_eq!(infer_capture_chunk_bytes(1000, 200, 16000, 1), 1000);
    assert_eq!(infer_capture_chunk_bytes(0, 0, 16000, 2), 4);
}

#[test]
fn pending_samples_become_little_endian_chunks() {
    let mut pcm = PendingPcm::new();
    pcm.push_samples(&[1, -1, 0x1234]);
    assert!(pcm.received_any);
    assert_eq!(pcm.pending_bytes, vec![0x01, 0x00, 0xFF, 0xFF, 0x34, 0x12]);
    let chunks = pcm.take_full_chunks(4);
    assert_eq!(chunks, vec![vec![0x01, 0x00, 0xFF, 0xFF]]);
    assert_eq!(pcm.pending_bytes, vec![0x34, 0x12]);
    match pcm.finalize(1) {
        CaptureEvent::Chunk { data, is_last } => {
            assert!(is_last);
            assert_eq!(data, vec![0x34, 0x12]);
        }
        CaptureEvent::Error(_) => panic!("expected the pending bytes"),
    }
    assert!(pcm.pending_bytes.is_empty());
}

#[test]
fn finalize_sends_silence_or_reports_no_audio() {
    let mut pcm = PendingPcm::new();
    pcm.push_samples(&[5, 6]);
    let chunks = pcm.take_full_chunks(4);
    assert_eq!(chunks.len(), 1);
    match pcm.finalize(2) {
        CaptureEvent::Chunk { data, is_last } => {
            assert!(is_last);
            assert_eq!(data, vec![0, 0, 0, 0]);
        }
        CaptureEvent::Error(_) => panic!("expected a silent frame"),
    }

    let mut empty = PendingPcm::new();
    empty.push_samples(&[]);
    assert!(!empty.received_any);
    match empty.finalize(1) {
        CaptureEvent::Error(message) => assert_eq!(message, NO_AUDIO_MESSAGE),
        CaptureEvent::Chunk { .. } => panic!("expected an error"),
    }
}

#[test]
fn device_indices_parse_like_std() {
    assert_eq!(parse_usize(&chars("12")), Some(12));
    assert_eq!(parse_usize(&chars("+7")), Some(7));
    assert_eq!(parse_usize(&chars("+")), None);
    assert_eq!(parse_usize(&chars("")), None);
    assert_eq!(parse_usize(&chars("-1")), None);
    assert_eq!(parse_usize(&chars("1a")), None);
    assert_eq!(parse_usize(&chars("99999999999999999999999")), None);
    assert_eq!(parse_usize(&chars(&usize::MAX.to_string())), Some(usize::MAX));
}

#[test]
fn selectors_pick_default_index_or_first_name_match() {
    let list = names(&["Built-in Microphone", "USB Audio Device", "usb headset"]);
    assert!(matches!(select_input_device("  ", &list), DeviceChoice::Default));
    assert!(matches!(select_input_device(" 1 ", &list), DeviceChoice::Device(1)));
    assert!(matches!(select_input_device("7", &list), DeviceChoice::IndexOutOfRange(7)));
    assert!(matches!(select_input_device("USB", &list), DeviceChoice::Device(1)));
    assert!(matches!(select_input_device("headset", &list), DeviceChoice::Device(2)));
    assert!(matches!(select_input_device("webcam", &list), DeviceChoice::NoMatch));
}

#[test]
fn the_capture_produces_mono_at_a_positive_rate() {
    assert!(check_capture_target(16000, 1).is_ok());
    assert!(matches!(check_capture_target(16000, 2), Err(CaptureTargetError::NotMono)));
    assert!(matches!(check_capture_target(0, 2), Err(CaptureTargetError::NotMono)));
    assert!(matches!(check_capture_target(0, 1), Err(CaptureTargetError::ZeroSampleRate)));
}
