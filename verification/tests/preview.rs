use codex_cli_voice_bridge_rust::preview::{
    shorten_to_terminal_width, truncate_to_display_width, PreviewMode, PreviewOutput,
    PreviewPrinter,
};

fn overwrite(out: PreviewOutput) -> String {
    match out {
        PreviewOutput::Overwrite(s) => s,
        _ => panic!("expected an overwrite"),
    }
}

#[test]
fn truncation_counts_display_columns() {
    assert_eq!(truncate_to_display_width("hello", 3), "hel");
    assert_eq!(truncate_to_display_width("hello", 0), "");
    assert_eq!(truncate_to_display_width("你好世界", 5), "你好");
    assert_eq!(truncate_to_display_width("你好", 1), "");
    assert_eq!(truncate_to_display_width("a\u{7}b", 2), "a\u{7}b");
}

#[test]
fn lines_are_fitted_to_the_terminal_leaving_the_last_column() {
    assert_eq!(shorten_to_terminal_width("hello world", None), "hello world");
    assert_eq!(shorten_to_terminal_width("hello world", Some(0)), "hello world");
    assert_eq!(shorten_to_terminal_width("hello world", Some(1)), "");
    assert_eq!(shorten_to_terminal_width("hello world", Some(12)), "hello world");
    assert_eq!(shorten_to_terminal_width("hello world", Some(11)), "hello w...");
    assert_eq!(shorten_to_terminal_width("hello world", Some(4)), "hel");
    assert_eq!(shorten_to_terminal_width("你好世界你好", Some(9)), "你好...");
}

#[test]
fn single_mode_overwrites_one_line_and_pads_shorter_text() {
    let mut p = PreviewPrinter::new(PreviewMode::Single);
    assert_eq!(overwrite(p.show("hello\nthere", false, None)), "\r[VOICE] hello there");
    assert!(matches!(p.show("hello\nthere", false, None), PreviewOutput::Nothing));
    assert_eq!(overwrite(p.show("hi", true, None)), "\r[VOICE FINAL] hi   ");
    assert!(p.finish());
    assert!(!p.finish());
}

#[test]
fn single_mode_cuts_to_the_terminal_width() {
    let mut p = PreviewPrinter::new(PreviewMode::Single);
    assert_eq!(overwrite(p.show("abcdefghijkl", false, Some(16))), "\r[VOICE] abcd...");
}

#[test]
fn line_mode_prints_each_new_text() {
    let mut p = PreviewPrinter::new(PreviewMode::Line);
    match p.show("a\nb", false, Some(4)) {
        PreviewOutput::Line(s) => assert_eq!(s, "[VOICE] a\nb"),
        _ => panic!("expected a line"),
    }
    assert!(matches!(p.show("a\nb", false, None), PreviewOutput::Nothing));
    assert!(matches!(p.show("a\nb", true, None), PreviewOutput::Line(_)));
    assert!(!p.finish());
}

#[test]
fn off_mode_and_blank_text_print_nothing() {
    let mut p = PreviewPrinter::new(PreviewMode::Off);
    assert!(matches!(p.show("text", true, None), PreviewOutput::Nothing));
    let mut p = PreviewPrinter::new(PreviewMode::Single);
    assert!(matches!(p.show("  ", true, None), PreviewOutput::Nothing));
    p.show("x", false, None);
    p.reset();
    assert!(matches!(p.show("x", false, None), PreviewOutput::Overwrite(_)));
}
