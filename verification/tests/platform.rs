use codex_cli_voice_bridge_rust::platform::macos::permissions::{
    check_permissions, host_permission_hint, missing_permission_names, permission_failure_message,
    PermissionStatus,
};
use codex_cli_voice_bridge_rust::platform::macos::ptt as mac;
use codex_cli_voice_bridge_rust::platform::macos::window::{
    get_frontmost_window_info, normalize_process_name, push_host_aliases, push_unique_name,
    MacosHostContext,
};
use codex_cli_voice_bridge_rust::platform::ptt::{PttAction, PttEvent, PttState};
use codex_cli_voice_bridge_rust::platform::types::WindowInfo;
use codex_cli_voice_bridge_rust::platform::windows::ptt::{
    classify_hook_message, function_key_index, parse_ptt_key, PttKeyError, VK_CAPITAL, VK_F1,
    VK_LWIN, VK_RCONTROL, VK_RETURN, VK_RSHIFT, VK_SPACE, WM_KEYDOWN, WM_KEYUP, WM_SYSKEYDOWN,
    WM_SYSKEYUP,
};
use codex_cli_voice_bridge_rust::platform::windows::window::{self as win, title_passes};

fn window(hwnd: isize, title: &str, process: &str) -> WindowInfo {
    WindowInfo { hwnd, title: title.to_owned(), process_name: process.to_owned() }
}

fn strings(list: &[&str]) -> Vec<String> {
    list.iter().map(|s| s.to_string()).collect()
}

#[test]
fn a_held_key_activates_once_and_its_release_stops() {
    let mut s = PttState::new();
    assert!(matches!(s.step(PttEvent::Timeout, false), PttAction::Nothing));
    assert!(matches!(s.step(PttEvent::Press, false), PttAction::BeginPress));
    assert!(matches!(s.step(PttEvent::Press, false), PttAction::Nothing));
    assert_eq!(s.wait_ms(100, 300), 200);
    assert_eq!(s.wait_ms(400, 300), 0);
    assert!(matches!(s.step(PttEvent::Timeout, false), PttAction::Activate));
    assert_eq!(s.wait_ms(400, 300), 50);
    assert!(matches!(s.step(PttEvent::Timeout, false), PttAction::Nothing));
    assert!(matches!(s.step(PttEvent::Press, false), PttAction::Nothing));
    assert!(matches!(s.step(PttEvent::Release, true), PttAction::Stop));
    assert!(!s.physical_pressed && !s.activated);
    assert_eq!(s.wait_ms(0, 300), 50);
}

#[test]
fn a_short_tap_is_replayed_only_with_passthrough() {
    let mut s = PttState::new();
    s.step(PttEvent::Press, true);
    assert!(matches!(s.step(PttEvent::Release, true), PttAction::ReplayTap));
    s.step(PttEvent::Press, false);
    assert!(matches!(s.step(PttEvent::Release, false), PttAction::Nothing));
    assert!(matches!(s.step(PttEvent::Release, true), PttAction::Nothing));
}

#[test]
fn windows_key_names_map_to_virtual_keys() {
    assert!(matches!(parse_ptt_key(" F1 "), Ok(code) if code == VK_F1));
    assert!(matches!(parse_ptt_key("f12"), Ok(0x7B)));
    assert!(matches!(parse_ptt_key("space"), Ok(code) if code == VK_SPACE));
    assert!(matches!(parse_ptt_key("Enter"), Ok(code) if code == VK_RETURN));
    assert!(matches!(parse_ptt_key("caps_lock"), Ok(code) if code == VK_CAPITAL));
    assert!(matches!(parse_ptt_key("win"), Ok(code) if code == VK_LWIN));
    assert!(matches!(parse_ptt_key("RCtrl"), Ok(code) if code == VK_RCONTROL));
    assert!(matches!(parse_ptt_key("right-shift"), Ok(code) if code == VK_RSHIFT));
    assert!(matches!(parse_ptt_key("q"), Ok(0x51)));
    assert!(matches!(parse_ptt_key("7"), Ok(0x37)));
    assert!(matches!(parse_ptt_key("globe"), Err(PttKeyError::FnUnsupported(n)) if n == "globe"));
    assert!(matches!(parse_ptt_key("f13"), Err(PttKeyError::Unsupported(_))));
    assert!(matches!(parse_ptt_key("é"), Err(PttKeyError::Unsupported(_))));
    assert_eq!(function_key_index(&"f10".chars().collect()), Some(10));
    assert_eq!(function_key_index(&"f0".chars().collect()), None);
}

#[test]
fn hook_messages_of_the_key_are_press_or_release() {
    assert!(matches!(classify_hook_message(false, 0x14, 0x14, WM_KEYDOWN), Some(PttEvent::Press)));
    assert!(matches!(classify_hook_message(false, 0x14, 0x14, WM_SYSKEYDOWN), Some(PttEvent::Press)));
    assert!(matches!(classify_hook_message(false, 0x14, 0x14, WM_KEYUP), Some(PttEvent::Release)));
    assert!(matches!(classify_hook_message(false, 0x14, 0x14, WM_SYSKEYUP), Some(PttEvent::Release)));
    assert!(classify_hook_message(true, 0x14, 0x14, WM_KEYDOWN).is_none());
    assert!(classify_hook_message(false, 0x15, 0x14, WM_KEYDOWN).is_none());
    assert!(classify_hook_message(false, 0x14, 0x14, 0x0200).is_none());
}

#[test]
fn windows_targets_need_a_handle_and_a_matching_title() {
    assert!(title_passes("Anything", "  "));
    assert!(title_passes("PowerShell - Codex", " codex "));
    assert!(!title_passes("Notepad", "codex"));
    let w = window(42, "Windows Terminal", "WindowsTerminal.exe");
    assert!(win::is_usable_target_window(Some(&w), "", None));
    assert!(win::is_usable_target_window(Some(&w), "terminal", Some(7)));
    assert!(!win::is_usable_target_window(Some(&w), "", Some(42)));
    assert!(!win::is_usable_target_window(Some(&w), "notepad", None));
    assert!(!win::is_usable_target_window(Some(&window(0, "x", "y")), "", None));
    assert!(!win::is_usable_target_window(None, "", None));
}

#[test]
fn macos_key_names_map_to_key_codes() {
    assert!(matches!(mac::parse_ptt_key("f1"), Ok(mac::MacosPttKey::Regular { key_code: 122 })));
    assert!(matches!(mac::parse_ptt_key("F12"), Ok(mac::MacosPttKey::Regular { key_code: 111 })));
    assert!(matches!(mac::parse_ptt_key("space"), Ok(mac::MacosPttKey::Regular { key_code: 49 })));
    assert!(matches!(mac::parse_ptt_key("enter"), Ok(mac::MacosPttKey::Regular { key_code: 36 })));
    assert!(matches!(mac::parse_ptt_key("CapsLock"), Ok(mac::MacosPttKey::CapsLock { key_code: 57 })));
    assert!(matches!(mac::parse_ptt_key("fn"), Ok(mac::MacosPttKey::Fn { flag_mask: 0x800000 })));
    assert!(matches!(mac::parse_ptt_key("lwin"), Ok(mac::MacosPttKey::Modifier { key_code: 55, flag_mask: 0x100000 })));
    assert!(matches!(mac::parse_ptt_key("rctrl"), Ok(mac::MacosPttKey::Modifier { key_code: 62, flag_mask: 0x40000 })));
    assert!(matches!(mac::parse_ptt_key("rshift"), Ok(mac::MacosPttKey::Modifier { key_code: 60, flag_mask: 0x20000 })));
    assert!(matches!(mac::parse_ptt_key("M"), Ok(mac::MacosPttKey::Regular { key_code: 46 })));
    assert!(matches!(mac::parse_ptt_key("1"), Err(PttKeyError::UnsupportedLetter(n)) if n == "1"));
    assert!(matches!(mac::parse_ptt_key("hyper"), Err(PttKeyError::Unsupported(_))));
    assert_eq!(mac::parse_letter_key('B'), Some(11));
    assert_eq!(mac::parse_letter_key('!'), None);
    assert_eq!(mac::parse_function_key(&"f5".chars().collect()), Some(96));
}

#[test]
fn macos_taps_replay_all_but_fn() {
    assert_eq!(mac::tap_key_code(mac::MacosPttKey::CapsLock { key_code: 57 }), Some(57));
    assert_eq!(mac::tap_key_code(mac::MacosPttKey::Fn { flag_mask: 0x800000 }), None);
    assert_eq!(mac::tap_key_code(mac::MacosPttKey::Regular { key_code: 49 }), Some(49));
    assert_eq!(mac::tap_key_code(mac::MacosPttKey::Modifier { key_code: 62, flag_mask: 0x40000 }), Some(62));
}

#[test]
fn macos_key_events_are_classified() {
    let fn_key = mac::MacosPttKey::Fn { flag_mask: mac::KCG_EVENT_FLAG_MASK_SECONDARY_FN };
    let o = mac::classify_key_event(fn_key, false, mac::KCG_EVENT_FLAGS_CHANGED, 63, 0x800100);
    assert!(o.handled && matches!(o.event, Some(PttEvent::Press)) && o.modifier_pressed);
    let o = mac::classify_key_event(fn_key, true, mac::KCG_EVENT_FLAGS_CHANGED, 63, 0);
    assert!(o.handled && matches!(o.event, Some(PttEvent::Release)) && !o.modifier_pressed);
    let o = mac::classify_key_event(fn_key, true, mac::KCG_EVENT_FLAGS_CHANGED, 63, 0x800000);
    assert!(!o.handled && o.event.is_none() && o.modifier_pressed);

    let space = mac::MacosPttKey::Regular { key_code: 49 };
    let o = mac::classify_key_event(space, false, mac::KCG_EVENT_KEY_DOWN, 49, 0);
    assert!(o.handled && matches!(o.event, Some(PttEvent::Press)));
    let o = mac::classify_key_event(space, false, mac::KCG_EVENT_KEY_UP, 49, 0);
    assert!(o.handled && matches!(o.event, Some(PttEvent::Release)));
    let o = mac::classify_key_event(space, false, mac::KCG_EVENT_KEY_DOWN, 50, 0);
    assert!(!o.handled && o.event.is_none());

    let rctrl = mac::MacosPttKey::Modifier { key_code: 62, flag_mask: mac::KCG_EVENT_FLAG_MASK_CONTROL };
    let o = mac::classify_key_event(rctrl, false, mac::KCG_EVENT_FLAGS_CHANGED, 62, 0x40000);
    assert!(o.handled && matches!(o.event, Some(PttEvent::Press)) && o.modifier_pressed);
    let o = mac::classify_key_event(rctrl, true, mac::KCG_EVENT_FLAGS_CHANGED, 62, 0x40000);
    assert!(o.handled && matches!(o.event, Some(PttEvent::Release)) && !o.modifier_pressed);

    let caps = mac::MacosPttKey::CapsLock { key_code: mac::MACOS_KEY_CODE_CAPS_LOCK };
    let o = mac::classify_key_event(caps, true, mac::KCG_EVENT_FLAGS_CHANGED, 57, 0);
    assert!(o.handled && o.event.is_none() && o.modifier_pressed);
    let o = mac::classify_key_event(caps, true, mac::KCG_EVENT_KEY_DOWN, 56, 0);
    assert!(!o.handled);
}

#[test]
fn caps_lock_hid_values_report_state_changes() {
    let page = mac::HID_PAGE_KEYBOARD_OR_KEYPAD;
    let usage = mac::HID_USAGE_KEYBOARD_CAPS_LOCK;
    assert!(matches!(mac::classify_hid_value(page, usage, true, true, false), Some(PttEvent::Press)));
    assert!(matches!(mac::classify_hid_value(page, usage, false, true, true), Some(PttEvent::Release)));
    assert!(mac::classify_hid_value(page, usage, true, true, true).is_none());
    assert!(mac::classify_hid_value(page, usage, true, false, false).is_none());
    assert!(mac::classify_hid_value(page, 0x04, true, true, false).is_none());
    assert!(mac::classify_hid_value(0x0C, usage, true, true, false).is_none());
}

#[test]
fn os_status_errors_name_the_call() {
    assert!(mac::os_status(0, "IOHIDManagerOpen").is_ok());
    assert_eq!(mac::os_status(-536870174, "IOHIDManagerOpen").err().unwrap(), "IOHIDManagerOpen failed with status -536870174");
    assert_eq!(mac::os_status(7, "x").err().unwrap(), "x failed with status 7");
    assert_eq!(codex_cli_voice_bridge_rust::json::i32_string(i32::MIN), "-2147483648");
    assert_eq!(codex_cli_voice_bridge_rust::json::i32_string(0), "0");
}

#[test]
fn host_names_are_unique_ignoring_case() {
    assert_eq!(normalize_process_name("  iTerm2 "), "iterm2");
    let mut names = Vec::new();
    push_unique_name(&mut names, " Terminal ");
    push_unique_name(&mut names, "terminal");
    push_unique_name(&mut names, "  ");
    assert_eq!(names, strings(&["Terminal"]));
    push_host_aliases(&mut names, "iTerm.app");
    assert_eq!(names, strings(&["Terminal", "iTerm.app", "iTerm", "iTerm2"]));
    let mut names = Vec::new();
    push_host_aliases(&mut names, "Apple_Terminal");
    push_host_aliases(&mut names, "WarpTerminal");
    assert_eq!(names, strings(&["Apple_Terminal", "Terminal", "WarpTerminal", "Warp"]));
}

#[test]
fn the_host_context_gathers_executable_bundle_and_terminal() {
    let ctx = MacosHostContext::from_sources(
        Some("voice_bridge"),
        &strings(&["MacOS", "Contents", "VoiceBridge.app", "Other.app"]),
        &strings(&["Apple_Terminal"]),
    );
    assert_eq!(ctx.host_process_names(), &strings(&["voice_bridge", "VoiceBridge", "Apple_Terminal", "Terminal"]));
    let terminal = window(1, "zsh", "Terminal");
    assert!(!mac_usable(&terminal, true, Some(&ctx)));
    assert!(mac_usable(&terminal, false, Some(&ctx)));
    assert!(mac_usable(&window(2, "Codex", "Code"), true, Some(&ctx)));
    assert!(!mac_usable(&window(2, "Codex", " "), false, None));
}

fn mac_usable(w: &WindowInfo, forbid: bool, ctx: Option<&MacosHostContext>) -> bool {
    codex_cli_voice_bridge_rust::platform::macos::window::is_usable_target_window(Some(w), "", forbid, ctx)
}

#[test]
fn missing_permissions_are_named_in_the_message() {
    let none = PermissionStatus { accessibility: false, input_monitoring: false };
    assert_eq!(missing_permission_names(none), vec!["Accessibility", "Input Monitoring"]);
    let msg = permission_failure_message(none);
    assert_eq!(msg, format!("macOS permissions are missing: Accessibility, Input Monitoring. {}", host_permission_hint()));
    let one = PermissionStatus { accessibility: true, input_monitoring: false };
    assert_eq!(permission_failure_message(one), format!("macOS permissions are missing: Input Monitoring. {}", host_permission_hint()));
    assert!(check_permissions(one).is_err());
    let all = PermissionStatus { accessibility: true, input_monitoring: true };
    assert!(missing_permission_names(all).is_empty());
    assert!(permission_failure_message(all).starts_with("Accessibility and Input Monitoring appear granted"));
    assert!(check_permissions(all).is_ok());
}

#[test]
fn the_frontmost_process_becomes_the_target_window() {
    let w = get_frontmost_window_info(Some(("Terminal".to_owned(), "zsh".to_owned(), 321))).unwrap();
    assert_eq!(w.hwnd, 321);
    assert_eq!(w.title, "zsh");
    assert_eq!(w.process_name, "Terminal");
    assert!(get_frontmost_window_info(None).is_none());
}
