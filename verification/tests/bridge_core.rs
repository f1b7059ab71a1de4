use codex_cli_voice_bridge_rust::bridge_core::{
    decide_utterance, ptt_key_uses_caps_lock, ptt_key_uses_fn, result_json_file_name,
    startup_banner_lines, target_decision, target_window_text, AutoDialogContext, BannerSettings,
    TargetDecision, UtteranceOutcome,
};
use codex_cli_voice_bridge_rust::mai::MaiOptions;
use codex_cli_voice_bridge_rust::protocol::CorpusOptions;
use codex_cli_voice_bridge_rust::platform::types::WindowInfo;

const TWO_ITEMS: &str = "{\"context_data\":[{\"text\":\"b\"},{\"text\":\"a\"}],\"context_type\":\"dialog_ctx\"}";
const ONE_ITEM: &str = "{\"context_data\":[{\"text\":\"b\"}],\"context_type\":\"dialog_ctx\"}";

#[test]
fn dialog_context_lists_items_newest_first() {
    let mut ctx = AutoDialogContext::new(true, 4, 0);
    assert_eq!(ctx.build_context(), None);
    ctx.ingest_final_text(" a ");
    ctx.ingest_final_text("b");
    assert_eq!(ctx.build_context().as_deref(), Some(TWO_ITEMS));
}

#[test]
fn repeating_the_newest_text_records_it_once() {
    let mut ctx = AutoDialogContext::new(true, 4, 0);
    ctx.ingest_final_text("a");
    ctx.ingest_final_text("b");
    ctx.ingest_final_text("  b");
    ctx.ingest_final_text("   ");
    assert_eq!(ctx.build_context().as_deref(), Some(TWO_ITEMS));
}

#[test]
fn only_the_newest_items_are_kept() {
    let mut ctx = AutoDialogContext::new(true, 0, 0);
    ctx.ingest_final_text("a");
    ctx.ingest_final_text("b");
    assert_eq!(ctx.build_context().as_deref(), Some(ONE_ITEM));
    let mut ctx = AutoDialogContext::new(true, 2, 0);
    ctx.ingest_final_text("z");
    ctx.ingest_final_text("a");
    ctx.ingest_final_text("b");
    assert_eq!(ctx.build_context().as_deref(), Some(TWO_ITEMS));
}

#[test]
fn the_context_drops_oldest_items_to_fit_the_byte_limit() {
    let mut ctx = AutoDialogContext::new(true, 4, 71);
    ctx.ingest_final_text("a");
    ctx.ingest_final_text("b");
    assert_eq!(ctx.build_context().as_deref(), Some(ONE_ITEM));
    let mut ctx = AutoDialogContext::new(true, 4, 72);
    ctx.ingest_final_text("a");
    ctx.ingest_final_text("b");
    assert_eq!(ctx.build_context().as_deref(), Some(TWO_ITEMS));
    let mut ctx = AutoDialogContext::new(true, 4, 10);
    ctx.ingest_final_text("a");
    ctx.ingest_final_text("b");
    assert_eq!(ctx.build_context().as_deref(), Some(ONE_ITEM));
}

#[test]
fn a_disabled_context_records_nothing() {
    let mut ctx = AutoDialogContext::new(false, 4, 0);
    ctx.ingest_final_text("a");
    assert_eq!(ctx.build_context(), None);
}

#[test]
fn ptt_key_names_are_recognized() {
    assert!(ptt_key_uses_fn(" Fn "));
    assert!(ptt_key_uses_fn("GLOBE"));
    assert!(ptt_key_uses_fn("function"));
    assert!(!ptt_key_uses_fn("f1"));
    assert!(ptt_key_uses_caps_lock("CapsLock"));
    assert!(ptt_key_uses_caps_lock(" caps-lock"));
    assert!(ptt_key_uses_caps_lock("caps_lock"));
    assert!(!ptt_key_uses_caps_lock("caps lock"));
}

#[test]
fn target_decisions_follow_the_captured_window() {
    assert!(matches!(target_decision("Terminal", true), TargetDecision::Paste));
    assert!(matches!(target_decision("  ", false), TargetDecision::RecognizeOnly));
    assert!(matches!(target_decision("Finder", false), TargetDecision::Skip));
}

#[test]
fn only_a_final_non_empty_text_is_pasted() {
    assert!(matches!(decide_utterance(false, "interim", true), UtteranceOutcome::NoFinalResult));
    assert!(matches!(decide_utterance(true, "  ", true), UtteranceOutcome::EmptyText));
    match decide_utterance(true, " 你好 ", false) {
        UtteranceOutcome::RecognizedNotPasted(t) => assert_eq!(t, "你好"),
        _ => panic!("expected a recognized text"),
    }
    match decide_utterance(true, " 你好 ", true) {
        UtteranceOutcome::Paste(t) => assert_eq!(t, "你好"),
        _ => panic!("expected a paste"),
    }
}

#[test]
fn result_files_are_numbered_with_four_digits() {
    assert_eq!(result_json_file_name(Some("out"), Some("json"), 3), "out_0003.json");
    assert_eq!(result_json_file_name(None, None, 12), "bridge_result_0012.json");
    assert_eq!(result_json_file_name(Some("r"), Some("txt"), 123456), "r_123456.txt");
    assert_eq!(result_json_file_name(Some("r"), None, 0), "r_0000.json");
}

fn no_corpus() -> CorpusOptions {
    CorpusOptions {
        boosting_table_name: None,
        boosting_table_id: None,
        correct_table_name: None,
        correct_table_id: None,
        context: None,
    }
}

fn settings() -> BannerSettings {
    BannerSettings {
        ptt_key_display: "capslock".to_owned(),
        submit: false,
        ptt_hold_ms: 250,
        ptt_short_press_passthrough: true,
        on_macos: true,
        upload_sample_rate: 16000,
        upload_channels: 1,
        upload_bits: 16,
        asr_auto_context: true,
        asr_auto_context_max_items: 4,
        asr_auto_context_max_bytes: 2048,
        require_title: " codex ".to_owned(),
        forbid_host_window_target: true,
    }
}

#[test]
fn the_banner_describes_the_streaming_setup() {
    let lines = startup_banner_lines(&settings(), &no_corpus(), None);
    assert_eq!(
        lines,
        vec![
            "[BRIDGE] Rust voice bridge started.",
            "[BRIDGE] ASR provider: doubao",
            "[BRIDGE] The foreground window at initial key-down becomes the target input window.",
            "[BRIDGE] Hold `capslock` to talk, release to finish one utterance. Text will be pasted only; press Enter yourself to send.",
            "[BRIDGE] PTT activates after holding for 250 ms. Short taps are passed through normally.",
            "[BRIDGE] macOS note: `capslock` is a system special key. While the bridge is running, it can still switch between non-Latin and Latin input sources, or trigger Caps Lock / continuous uppercase behavior.",
            "[BRIDGE] upload format: 16000 Hz / 1 ch / 16-bit PCM (local capture is converted only if needed)",
            "[BRIDGE] contextual ASR: auto dialog context is ON (max_items=4, max_bytes=2048).",
            "[BRIDGE] contextual ASR: recent final texts will be sent as corpus.context for future utterances.",
            "[BRIDGE] Window title must contain: codex",
            "[BRIDGE] Host window targeting is disabled for this run.",
            "[BRIDGE] Press Ctrl-C here to exit.",
        ]
    );
}

#[test]
fn the_banner_describes_the_mai_setup() {
    let mut s = settings();
    s.ptt_key_display = "fn".to_owned();
    s.submit = true;
    s.require_title = " ".to_owned();
    s.forbid_host_window_target = false;
    let mai = MaiOptions {
        endpoint: "https://e".to_owned(),
        key: "k".to_owned(),
        api_version: "v".to_owned(),
        model: "mai-transcribe-1.5".to_owned(),
        locales: vec!["zh-CN".to_owned(), "en-US".to_owned()],
        style: "default".to_owned(),
        phrases: vec!["Verus".to_owned(), "Rust".to_owned()],
        max_retries: 4,
    };
    let lines = startup_banner_lines(&s, &no_corpus(), Some(&mai));
    assert_eq!(lines[1], "[BRIDGE] ASR provider: mai");
    assert_eq!(lines[3], "[BRIDGE] Hold `fn` to talk, release to finish one utterance. Auto-submit is ON.");
    assert_eq!(lines[4], "[BRIDGE] PTT activates after holding for 250 ms. Short taps are not replayed for `fn`.");
    assert!(lines[5].starts_with("[BRIDGE] macOS note: using `fn`"));
    assert_eq!(lines[7], "[BRIDGE] MAI: transport=rest, model=mai-transcribe-1.5, locales=zh-CN,en-US, style=default.");
    assert_eq!(lines[8], "[BRIDGE] MAI: phrase list is enabled (2 phrases).");
    assert_eq!(lines[9], "[BRIDGE] contextual ASR: auto dialog context is ignored by MAI; use --mai-phrase for entity bias.");
    assert_eq!(lines[10], "[BRIDGE] Press Ctrl-C here to exit.");
    assert_eq!(lines.len(), 11);
    let mut no_locale = mai;
    no_locale.locales.clear();
    no_locale.phrases.clear();
    s.asr_auto_context = false;
    s.ptt_key_display = "f1".to_owned();
    s.ptt_short_press_passthrough = false;
    let lines = startup_banner_lines(&s, &no_corpus(), Some(&no_locale));
    assert_eq!(lines[4], "[BRIDGE] PTT activates after holding for 250 ms. Short taps are ignored.");
    assert_eq!(lines[6], "[BRIDGE] MAI: transport=rest, model=mai-transcribe-1.5, locales=auto, style=default.");
    assert_eq!(lines.len(), 8);
}

#[test]
fn the_target_window_line_names_process_and_title() {
    let w = WindowInfo { hwnd: 1, title: String::new(), process_name: "Terminal".to_owned() };
    assert_eq!(target_window_text(&w), "[BRIDGE] target window: Terminal | <no title>");
    let w = WindowInfo { hwnd: 1, title: "zsh".to_owned(), process_name: "iTerm2".to_owned() };
    assert_eq!(target_window_text(&w), "[BRIDGE] target window: iTerm2 | zsh");
}

#[test]
fn the_banner_lists_the_corpus_hints() {
    let corpus = CorpusOptions {
        boosting_table_name: Some("names".to_owned()),
        boosting_table_id: None,
        correct_table_name: Some(" ".to_owned()),
        correct_table_id: Some("c-1".to_owned()),
        context: Some("{\"hotwords\":[{\"word\":\"希沃\"}]}".to_owned()),
    };
    let lines = startup_banner_lines(&settings(), &corpus, None);
    let start = lines.iter().position(|l| l.contains("corpus hints are enabled")).unwrap();
    assert_eq!(
        &lines[start..start + 5],
        &[
            "[BRIDGE] contextual ASR: corpus hints are enabled.".to_owned(),
            "[BRIDGE] contextual ASR: boosting_table_name is set.".to_owned(),
            "[BRIDGE] contextual ASR: correct_table_id is set.".to_owned(),
            "[BRIDGE] contextual ASR: note: static corpus.context will be ignored while auto dialog context is enabled.".to_owned(),
            "[BRIDGE] contextual ASR: corpus.context is set (32 bytes).".to_owned(),
        ]
    );
    assert_eq!(lines[start - 1], "[BRIDGE] contextual ASR: recent final texts will be sent as corpus.context for future utterances.");
}

#[test]
fn the_dialog_context_replaces_the_static_context() {
    let static_context = Some("{\"hotwords\":[]}".to_owned());
    let mut ctx = AutoDialogContext::new(true, 4, 0);
    assert_eq!(ctx.utterance_context(&static_context), None);
    ctx.ingest_final_text("b");
    assert_eq!(ctx.utterance_context(&static_context).as_deref(), Some(ONE_ITEM));
    let off = AutoDialogContext::new(false, 4, 0);
    assert_eq!(off.utterance_context(&static_context), static_context);
    assert_eq!(off.utterance_context(&None), None);
}
