//! Windows push-to-talk keys: key names to virtual-key codes, and which
//! keyboard-hook messages are presses and releases of the key.
use vstd::prelude::*;

use crate::platform::ptt::PttEvent;
use crate::text::{chars_eq_str, normalized, normalized_chars};

verus! {

pub const VK_SPACE: u32 = 0x20;

pub const VK_RETURN: u32 = 0x0D;

pub const VK_CAPITAL: u32 = 0x14;

pub const VK_LWIN: u32 = 0x5B;

pub const VK_RCONTROL: u32 = 0xA3;

pub const VK_RSHIFT: u32 = 0xA1;

pub const VK_F1: u32 = 0x70;

pub const WM_KEYDOWN: u32 = 0x0100;

pub const WM_KEYUP: u32 = 0x0101;

pub const WM_SYSKEYDOWN: u32 = 0x0104;

pub const WM_SYSKEYUP: u32 = 0x0105;

/// Why a key name is refused.
pub enum PttKeyError {
    /// `fn` has no virtual-key code on Windows.
    FnUnsupported(String),
    Unsupported(String),
    /// A single character that names no macOS key.
    UnsupportedLetter(String),
}

/// The function key `f1`..`f12` named by `n`, as its position 1..12.
pub open spec fn function_key_number(n: Seq<char>) -> Option<nat> {
    if n == "f1"@ { Some(1) }
    else if n == "f2"@ { Some(2) }
    else if n == "f3"@ { Some(3) }
    else if n == "f4"@ { Some(4) }
    else if n == "f5"@ { Some(5) }
    else if n == "f6"@ { Some(6) }
    else if n == "f7"@ { Some(7) }
    else if n == "f8"@ { Some(8) }
    else if n == "f9"@ { Some(9) }
    else if n == "f10"@ { Some(10) }
    else if n == "f11"@ { Some(11) }
    else if n == "f12"@ { Some(12) }
    else { None }
}

/// The position 1..12 of the function key named by `normalized`.
pub fn function_key_index(normalized: &Vec<char>) -> (res: Option<u32>)
    ensures
        match function_key_number(normalized@) {
            Some(k) => res == Some(k as u32),
            None => res is None,
        },
{
    if chars_eq_str(normalized, "f1") { Some(1) }
    else if chars_eq_str(normalized, "f2") { Some(2) }
    else if chars_eq_str(normalized, "f3") { Some(3) }
    else if chars_eq_str(normalized, "f4") { Some(4) }
    else if chars_eq_str(normalized, "f5") { Some(5) }
    else if chars_eq_str(normalized, "f6") { Some(6) }
    else if chars_eq_str(normalized, "f7") { Some(7) }
    else if chars_eq_str(normalized, "f8") { Some(8) }
    else if chars_eq_str(normalized, "f9") { Some(9) }
    else if chars_eq_str(normalized, "f10") { Some(10) }
    else if chars_eq_str(normalized, "f11") { Some(11) }
    else if chars_eq_str(normalized, "f12") { Some(12) }
    else { None }
}

/// The virtual-key code of a function key name.
pub fn parse_function_key(normalized: &Vec<char>) -> (res: Option<u32>)
    ensures
        match function_key_number(normalized@) {
            Some(k) => res == Some((VK_F1 + k - 1) as u32),
            None => res is None,
        },
{
    match function_key_index(normalized) {
        Some(k) => Some(VK_F1 + k - 1),
        None => None,
    }
}

pub open spec fn one_of(n: Seq<char>, a: Seq<char>, b: Seq<char>, c: Seq<char>) -> bool {
    n == a || n == b || n == c
}

pub open spec fn is_win_name(n: Seq<char>) -> bool {
    n == "left-win"@ || n == "left_win"@ || n == "leftwin"@ || n == "lwin"@ || n == "windows"@ || n
        == "win"@
}

pub open spec fn is_right_control_name(n: Seq<char>) -> bool {
    n == "right-control"@ || n == "right_control"@ || n == "rightcontrol"@ || n == "rctrl"@ || n
        == "rcontrol"@
}

pub open spec fn is_right_shift_name(n: Seq<char>) -> bool {
    n == "right-shift"@ || n == "right_shift"@ || n == "rightshift"@ || n == "rshift"@
}

/// `char::to_ascii_uppercase`.
pub open spec fn upper_char(c: char) -> char {
    if 'a' <= c && c <= 'z' {
        ((c as u32) - 32) as char
    } else {
        c
    }
}

/// The virtual-key code a Windows PTT key name stands for (compared trimmed
/// and ignoring ASCII case): `f1`..`f12`, `space`, `enter`, Caps Lock, left
/// Windows, right Control, right Shift, or a single ASCII character (its
/// upper-case code); `fn` and anything else are refused.
pub open spec fn spec_windows_key(name: Seq<char>) -> Option<u32> {
    let n = normalized(name);
    match function_key_number(n) {
        Some(k) => Some((VK_F1 + k - 1) as u32),
        None => if n == "space"@ {
            Some(VK_SPACE)
        } else if n == "enter"@ {
            Some(VK_RETURN)
        } else if one_of(n, "capslock"@, "caps-lock"@, "caps_lock"@) {
            Some(VK_CAPITAL)
        } else if is_win_name(n) {
            Some(VK_LWIN)
        } else if is_right_control_name(n) {
            Some(VK_RCONTROL)
        } else if is_right_shift_name(n) {
            Some(VK_RSHIFT)
        } else if one_of(n, "fn"@, "function"@, "globe"@) {
            None
        } else if n.len() == 1 && (n[0] as u32) < 128 {
            Some(upper_char(n[0]) as u32)
        } else {
            None
        },
    }
}

/// The Windows key names: Caps Lock (the default key) under its three
/// spellings, space, enter, the left Windows key, right Control, right Shift
/// and the function keys map to their virtual-key codes, a single ASCII
/// letter or digit to its upper-case code, and `fn` and every other name of
/// more than one character are refused; names are compared trimmed and
/// ignoring ASCII case.
pub proof fn law_windows_key_names(name: Seq<char>)
    ensures
        ({
            let n = normalized(name);
            &&& (n == "capslock"@ || n == "caps-lock"@ || n == "caps_lock"@) ==> spec_windows_key(name)
                == Some(0x14u32)
            &&& n == "space"@ ==> spec_windows_key(name) == Some(0x20u32)
            &&& n == "enter"@ ==> spec_windows_key(name) == Some(0x0Du32)
            &&& (n == "left-win"@ || n == "left_win"@ || n == "leftwin"@ || n == "lwin"@ || n
                == "windows"@ || n == "win"@) ==> spec_windows_key(name) == Some(0x5Bu32)
            &&& (n == "right-control"@ || n == "right_control"@ || n == "rightcontrol"@ || n
                == "rctrl"@ || n == "rcontrol"@) ==> spec_windows_key(name) == Some(0xA3u32)
            &&& (n == "right-shift"@ || n == "right_shift"@ || n == "rightshift"@ || n
                == "rshift"@) ==> spec_windows_key(name) == Some(0xA1u32)
            &&& n == "f1"@ ==> spec_windows_key(name) == Some(0x70u32)
            &&& n == "f2"@ ==> spec_windows_key(name) == Some(0x71u32)
            &&& n == "f3"@ ==> spec_windows_key(name) == Some(0x72u32)
            &&& n == "f4"@ ==> spec_windows_key(name) == Some(0x73u32)
            &&& n == "f5"@ ==> spec_windows_key(name) == Some(0x74u32)
            &&& n == "f6"@ ==> spec_windows_key(name) == Some(0x75u32)
            &&& n == "f7"@ ==> spec_windows_key(name) == Some(0x76u32)
            &&& n == "f8"@ ==> spec_windows_key(name) == Some(0x77u32)
            &&& n == "f9"@ ==> spec_windows_key(name) == Some(0x78u32)
            &&& n == "f10"@ ==> spec_windows_key(name) == Some(0x79u32)
            &&& n == "f11"@ ==> spec_windows_key(name) == Some(0x7Au32)
            &&& n == "f12"@ ==> spec_windows_key(name) == Some(0x7Bu32)
            &&& (n == "fn"@ || n == "function"@ || n == "globe"@) ==> spec_windows_key(name) is None
            &&& (n.len() == 1 && 'a' <= n[0] <= 'z') ==> spec_windows_key(name) == Some(
                (n[0] as u32 - 32) as u32,
            )
            &&& (n.len() == 1 && '0' <= n[0] <= '9') ==> spec_windows_key(name) == Some(n[0] as u32)
            &&& (n.len() != 1 && function_key_number(n) is None && n != "space"@ && n != "enter"@
                && !one_of(n, "capslock"@, "caps-lock"@, "caps_lock"@) && !is_win_name(n)
                && !is_right_control_name(n) && !is_right_shift_name(n)) ==> spec_windows_key(name)
                is None
        }),
{
    reveal_strlit("f1");
    reveal_strlit("f2");
    reveal_strlit("f3");
    reveal_strlit("f4");
    reveal_strlit("f5");
    reveal_strlit("f6");
    reveal_strlit("f7");
    reveal_strlit("f8");
    reveal_strlit("f9");
    reveal_strlit("f10");
    reveal_strlit("f11");
    reveal_strlit("f12");
    reveal_strlit("space");
    reveal_strlit("enter");
    reveal_strlit("capslock");
    reveal_strlit("caps-lock");
    reveal_strlit("caps_lock");
    reveal_strlit("left-win");
    reveal_strlit("left_win");
    reveal_strlit("leftwin");
    reveal_strlit("lwin");
    reveal_strlit("windows");
    reveal_strlit("win");
    reveal_strlit("right-control");
    reveal_strlit("right_control");
    reveal_strlit("rightcontrol");
    reveal_strlit("rctrl");
    reveal_strlit("rcontrol");
    reveal_strlit("right-shift");
    reveal_strlit("right_shift");
    reveal_strlit("rightshift");
    reveal_strlit("rshift");
    reveal_strlit("fn");
    reveal_strlit("function");
    reveal_strlit("globe");
    assert("f1"@ =~= seq!['f', '1']);
    assert("f2"@ =~= seq!['f', '2']);
    assert("f3"@ =~= seq!['f', '3']);
    assert("f4"@ =~= seq!['f', '4']);
    assert("f5"@ =~= seq!['f', '5']);
    assert("f6"@ =~= seq!['f', '6']);
    assert("f7"@ =~= seq!['f', '7']);
    assert("f8"@ =~= seq!['f', '8']);
    assert("f9"@ =~= seq!['f', '9']);
    assert("f10"@ =~= seq!['f', '1', '0']);
    assert("f11"@ =~= seq!['f', '1', '1']);
    assert("f12"@ =~= seq!['f', '1', '2']);
    assert("space"@ =~= seq!['s', 'p', 'a', 'c', 'e']);
    assert("enter"@ =~= seq!['e', 'n', 't', 'e', 'r']);
    assert("capslock"@ =~= seq!['c', 'a', 'p', 's', 'l', 'o', 'c', 'k']);
    assert("caps-lock"@ =~= seq!['c', 'a', 'p', 's', '-', 'l', 'o', 'c', 'k']);
    assert("caps_lock"@ =~= seq!['c', 'a', 'p', 's', '_', 'l', 'o', 'c', 'k']);
    assert("left-win"@ =~= seq!['l', 'e', 'f', 't', '-', 'w', 'i', 'n']);
    assert("left_win"@ =~= seq!['l', 'e', 'f', 't', '_', 'w', 'i', 'n']);
    assert("leftwin"@ =~= seq!['l', 'e', 'f', 't', 'w', 'i', 'n']);
    assert("lwin"@ =~= seq!['l', 'w', 'i', 'n']);
    assert("windows"@ =~= seq!['w', 'i', 'n', 'd', 'o', 'w', 's']);
    assert("win"@ =~= seq!['w', 'i', 'n']);
    assert("right-control"@ =~= seq!['r', 'i', 'g', 'h', 't', '-', 'c', 'o', 'n', 't', 'r', 'o', 'l']);
    assert("right_control"@ =~= seq!['r', 'i', 'g', 'h', 't', '_', 'c', 'o', 'n', 't', 'r', 'o', 'l']);
    assert("rightcontrol"@ =~= seq!['r', 'i', 'g', 'h', 't', 'c', 'o', 'n', 't', 'r', 'o', 'l']);
    assert("rctrl"@ =~= seq!['r', 'c', 't', 'r', 'l']);
    assert("rcontrol"@ =~= seq!['r', 'c', 'o', 'n', 't', 'r', 'o', 'l']);
    assert("right-shift"@ =~= seq!['r', 'i', 'g', 'h', 't', '-', 's', 'h', 'i', 'f', 't']);
    assert("right_shift"@ =~= seq!['r', 'i', 'g', 'h', 't', '_', 's', 'h', 'i', 'f', 't']);
    assert("rightshift"@ =~= seq!['r', 'i', 'g', 'h', 't', 's', 'h', 'i', 'f', 't']);
    assert("rshift"@ =~= seq!['r', 's', 'h', 'i', 'f', 't']);
    assert("fn"@ =~= seq!['f', 'n']);
    assert("function"@ =~= seq!['f', 'u', 'n', 'c', 't', 'i', 'o', 'n']);
    assert("globe"@ =~= seq!['g', 'l', 'o', 'b', 'e']);
    assert("space"@[0] == 's' && "enter"@[0] == 'e');
    let n = normalized(name);
    if n.len() == 1 && '0' <= n[0] <= '9' {
        assert(n[0] as u32 <= 57);
        assert(upper_char(n[0]) == n[0]);
    }
}

fn name_is_any(n: &Vec<char>, a: &str, b: &str, c: &str) -> (r: bool)
    ensures
        r == one_of(n@, a@, b@, c@),
{
    chars_eq_str(n, a) || chars_eq_str(n, b) || chars_eq_str(n, c)
}

/// The virtual-key code of a PTT key name.
pub fn parse_ptt_key(name: &str) -> (res: Result<u32, PttKeyError>)
    ensures
        match spec_windows_key(name@) {
            Some(code) => res == Ok::<u32, PttKeyError>(code),
            None => if one_of(normalized(name@), "fn"@, "function"@, "globe"@) {
                res matches Err(PttKeyError::FnUnsupported(n)) && n@ == name@
            } else {
                res matches Err(PttKeyError::Unsupported(n)) && n@ == name@
            },
        },
{
    let n = normalized_chars(name);
    if let Some(code) = parse_function_key(&n) {
        return Ok(code);
    }
    if chars_eq_str(&n, "space") {
        return Ok(VK_SPACE);
    }
    if chars_eq_str(&n, "enter") {
        return Ok(VK_RETURN);
    }
    if name_is_any(&n, "capslock", "caps-lock", "caps_lock") {
        return Ok(VK_CAPITAL);
    }
    if chars_eq_str(&n, "left-win") || chars_eq_str(&n, "left_win") || chars_eq_str(&n, "leftwin")
        || chars_eq_str(&n, "lwin") || chars_eq_str(&n, "windows") || chars_eq_str(&n, "win") {
        return Ok(VK_LWIN);
    }
    if chars_eq_str(&n, "right-control") || chars_eq_str(&n, "right_control") || chars_eq_str(
        &n,
        "rightcontrol",
    ) || chars_eq_str(&n, "rctrl") || chars_eq_str(&n, "rcontrol") {
        return Ok(VK_RCONTROL);
    }
    if chars_eq_str(&n, "right-shift") || chars_eq_str(&n, "right_shift") || chars_eq_str(
        &n,
        "rightshift",
    ) || chars_eq_str(&n, "rshift") {
        return Ok(VK_RSHIFT);
    }
    if name_is_any(&n, "fn", "function", "globe") {
        return Err(PttKeyError::FnUnsupported(crate::text::to_string(name)));
    }
    if n.len() == 1 && (n[0] as u32) < 128 {
        let c = n[0];
        let code: u32 = if 'a' <= c && c <= 'z' {
            c as u32 - 32
        } else {
            c as u32
        };
        return Ok(code);
    }
    Err(PttKeyError::Unsupported(crate::text::to_string(name)))
}

/// What a keyboard-hook message is for the PTT key: a press or release of
/// the key that was not injected by software, else nothing.
pub open spec fn spec_hook_event(injected: bool, vk_code: u32, expected_vk: u32, message: u32) -> Option<PttEvent> {
    if injected || vk_code != expected_vk {
        None
    } else if message == WM_KEYDOWN || message == WM_SYSKEYDOWN {
        Some(PttEvent::Press)
    } else if message == WM_KEYUP || message == WM_SYSKEYUP {
        Some(PttEvent::Release)
    } else {
        None
    }
}

/// A keyboard-hook message is a press of the PTT key for key-down and
/// system-key-down (0x0100, 0x0104), a release for key-up and system-key-up
/// (0x0101, 0x0105), and nothing for an injected event, another key or any
/// other message.
pub proof fn law_hook_messages(injected: bool, vk_code: u32, expected_vk: u32, message: u32)
    ensures
        (injected || vk_code != expected_vk) ==> spec_hook_event(injected, vk_code, expected_vk, message)
            is None,
        (!injected && vk_code == expected_vk && (message == 0x0100 || message == 0x0104)) ==> spec_hook_event(
            injected,
            vk_code,
            expected_vk,
            message,
        ) == Some(PttEvent::Press),
        (!injected && vk_code == expected_vk && (message == 0x0101 || message == 0x0105)) ==> spec_hook_event(
            injected,
            vk_code,
            expected_vk,
            message,
        ) == Some(PttEvent::Release),
        !(message == 0x0100 || message == 0x0104 || message == 0x0101 || message == 0x0105) ==> spec_hook_event(
            injected,
            vk_code,
            expected_vk,
            message,
        ) is None,
{
}

/// Classifies a keyboard-hook message (the hook swallows the ones that are
/// PTT events).
pub fn classify_hook_message(injected: bool, vk_code: u32, expected_vk: u32, message: u32) -> (res: Option<PttEvent>)
    ensures
        res == spec_hook_event(injected, vk_code, expected_vk, message),
{
    if injected || vk_code != expected_vk {
        None
    } else if message == WM_KEYDOWN || message == WM_SYSKEYDOWN {
        Some(PttEvent::Press)
    } else if message == WM_KEYUP || message == WM_SYSKEYUP {
        Some(PttEvent::Release)
    } else {
        None
    }
}

} // verus!
