//! macOS push-to-talk keys: key names to key codes and modifier flags, which
//! Quartz events and HID values are presses and releases of the key, and the
//! status codes of the system calls.
use vstd::prelude::*;

use crate::json::{i32_string, signed_decimal};
use crate::platform::ptt::PttEvent;
use crate::platform::windows::ptt::{function_key_index, function_key_number, is_right_control_name, is_right_shift_name, is_win_name, one_of, PttKeyError};
use crate::text::{chars_eq_str, lower_char, normalized, normalized_chars, string_push, string_push_str, to_string};

verus! {

pub const KCG_EVENT_KEY_DOWN: u32 = 10;

pub const KCG_EVENT_KEY_UP: u32 = 11;

pub const KCG_EVENT_FLAGS_CHANGED: u32 = 12;

pub const MACOS_KEY_CODE_CAPS_LOCK: i64 = 57;

pub const KCG_EVENT_FLAG_MASK_SHIFT: u64 = 0x20000;

pub const KCG_EVENT_FLAG_MASK_CONTROL: u64 = 0x40000;

pub const KCG_EVENT_FLAG_MASK_COMMAND: u64 = 0x100000;

pub const KCG_EVENT_FLAG_MASK_SECONDARY_FN: u64 = 0x800000;

pub const HID_PAGE_KEYBOARD_OR_KEYPAD: u32 = 0x07;

pub const HID_USAGE_KEYBOARD_CAPS_LOCK: u32 = 0x39;

/// How the push-to-talk key shows up in keyboard events.
#[derive(Clone, Copy)]
pub enum MacosPttKey {
    /// Caps Lock: its presses come from the HID manager.
    CapsLock { key_code: i64 },
    /// The `fn` / Globe key: a modifier flag.
    Fn { flag_mask: u64 },
    /// An ordinary key: key-down and key-up events.
    Regular { key_code: u16 },
    /// A modifier key: flag changes with this key code.
    Modifier { key_code: i64, flag_mask: u64 },
}

/// The key code of function key `k` (1..12).
pub open spec fn mac_function_code(k: nat) -> u16 {
    if k == 1 { 122 }
    else if k == 2 { 120 }
    else if k == 3 { 99 }
    else if k == 4 { 118 }
    else if k == 5 { 96 }
    else if k == 6 { 97 }
    else if k == 7 { 98 }
    else if k == 8 { 100 }
    else if k == 9 { 101 }
    else if k == 10 { 109 }
    else if k == 11 { 103 }
    else { 111 }
}

/// The key code of a function key name on macOS.
pub fn parse_function_key(normalized: &Vec<char>) -> (res: Option<u16>)
    ensures
        match function_key_number(normalized@) {
            Some(k) => res == Some(mac_function_code(k)),
            None => res is None,
        },
{
    match function_key_index(normalized) {
        Some(k) => Some(
            if k == 1 { 122 }
            else if k == 2 { 120 }
            else if k == 3 { 99 }
            else if k == 4 { 118 }
            else if k == 5 { 96 }
            else if k == 6 { 97 }
            else if k == 7 { 98 }
            else if k == 8 { 100 }
            else if k == 9 { 101 }
            else if k == 10 { 109 }
            else if k == 11 { 103 }
            else { 111 },
        ),
        None => None,
    }
}

/// The ANSI key code of a letter (either case), on the US layout.
pub open spec fn spec_letter_code(c: char) -> Option<u16> {
    let l = lower_char(c);
    if l == 'a' { Some(0) }
    else if l == 's' { Some(1) }
    else if l == 'd' { Some(2) }
    else if l == 'f' { Some(3) }
    else if l == 'h' { Some(4) }
    else if l == 'g' { Some(5) }
    else if l == 'z' { Some(6) }
    else if l == 'x' { Some(7) }
    else if l == 'c' { Some(8) }
    else if l == 'v' { Some(9) }
    else if l == 'b' { Some(11) }
    else if l == 'q' { Some(12) }
    else if l == 'w' { Some(13) }
    else if l == 'e' { Some(14) }
    else if l == 'r' { Some(15) }
    else if l == 'y' { Some(16) }
    else if l == 't' { Some(17) }
    else if l == 'o' { Some(31) }
    else if l == 'u' { Some(32) }
    else if l == 'i' { Some(34) }
    else if l == 'p' { Some(35) }
    else if l == 'l' { Some(37) }
    else if l == 'j' { Some(38) }
    else if l == 'k' { Some(40) }
    else if l == 'n' { Some(45) }
    else if l == 'm' { Some(46) }
    else { None }
}

/// The key code of a letter.
pub fn parse_letter_key(ch: char) -> (res: Option<u16>)
    ensures
        res == spec_letter_code(ch),
{
    let l = crate::text::char_lower(ch);
    if l == 'a' { Some(0) }
    else if l == 's' { Some(1) }
    else if l == 'd' { Some(2) }
    else if l == 'f' { Some(3) }
    else if l == 'h' { Some(4) }
    else if l == 'g' { Some(5) }
    else if l == 'z' { Some(6) }
    else if l == 'x' { Some(7) }
    else if l == 'c' { Some(8) }
    else if l == 'v' { Some(9) }
    else if l == 'b' { Some(11) }
    else if l == 'q' { Some(12) }
    else if l == 'w' { Some(13) }
    else if l == 'e' { Some(14) }
    else if l == 'r' { Some(15) }
    else if l == 'y' { Some(16) }
    else if l == 't' { Some(17) }
    else if l == 'o' { Some(31) }
    else if l == 'u' { Some(32) }
    else if l == 'i' { Some(34) }
    else if l == 'p' { Some(35) }
    else if l == 'l' { Some(37) }
    else if l == 'j' { Some(38) }
    else if l == 'k' { Some(40) }
    else if l == 'n' { Some(45) }
    else if l == 'm' { Some(46) }
    else { None }
}

/// The key a macOS PTT key name stands for (trimmed, ignoring ASCII case):
/// `f1`..`f12`, `space`, `enter`, Caps Lock, `fn`, left Command (the Windows
/// key names), right Control, right Shift, or a single letter.
pub open spec fn spec_mac_key(name: Seq<char>) -> Option<MacosPttKey> {
    let n = normalized(name);
    match function_key_number(n) {
        Some(k) => Some(MacosPttKey::Regular { key_code: mac_function_code(k) }),
        None => if n == "space"@ {
            Some(MacosPttKey::Regular { key_code: 49 })
        } else if n == "enter"@ {
            Some(MacosPttKey::Regular { key_code: 36 })
        } else if one_of(n, "capslock"@, "caps-lock"@, "caps_lock"@) {
            Some(MacosPttKey::CapsLock { key_code: MACOS_KEY_CODE_CAPS_LOCK })
        } else if one_of(n, "fn"@, "function"@, "globe"@) {
            Some(MacosPttKey::Fn { flag_mask: KCG_EVENT_FLAG_MASK_SECONDARY_FN })
        } else if is_win_name(n) {
            Some(MacosPttKey::Modifier { key_code: 55, flag_mask: KCG_EVENT_FLAG_MASK_COMMAND })
        } else if is_right_control_name(n) {
            Some(MacosPttKey::Modifier { key_code: 62, flag_mask: KCG_EVENT_FLAG_MASK_CONTROL })
        } else if is_right_shift_name(n) {
            Some(MacosPttKey::Modifier { key_code: 60, flag_mask: KCG_EVENT_FLAG_MASK_SHIFT })
        } else if n.len() == 1 && (n[0] as u32) < 128 {
            match spec_letter_code(n[0]) {
                Some(code) => Some(MacosPttKey::Regular { key_code: code }),
                None => None,
            }
        } else {
            None
        },
    }
}

/// The macOS key names: Caps Lock (the default key) under its three
/// spellings is the Caps Lock key (code 57), `fn`/`function`/`globe` the
/// secondary-fn flag, space and enter their key codes, the left Windows names
/// left Command, right Control and right Shift their modifier codes and
/// flags, `f1`..`f12` and the single letters their (layout-position) key
/// codes; a single digit is refused as a letter; names are compared trimmed
/// and ignoring ASCII case.
pub proof fn law_macos_key_names(name: Seq<char>)
    ensures
        ({
            let n = normalized(name);
            &&& (n == "capslock"@ || n == "caps-lock"@ || n == "caps_lock"@) ==> spec_mac_key(name)
                == Some(MacosPttKey::CapsLock { key_code: 57 })
            &&& (n == "fn"@ || n == "function"@ || n == "globe"@) ==> spec_mac_key(name) == Some(
                MacosPttKey::Fn { flag_mask: 0x800000 },
            )
            &&& n == "space"@ ==> spec_mac_key(name) == Some(MacosPttKey::Regular { key_code: 49 })
            &&& n == "enter"@ ==> spec_mac_key(name) == Some(MacosPttKey::Regular { key_code: 36 })
            &&& (n == "left-win"@ || n == "left_win"@ || n == "leftwin"@ || n == "lwin"@ || n
                == "windows"@ || n == "win"@) ==> spec_mac_key(name) == Some(
                MacosPttKey::Modifier { key_code: 55, flag_mask: 0x100000 },
            )
            &&& (n == "right-control"@ || n == "right_control"@ || n == "rightcontrol"@ || n
                == "rctrl"@ || n == "rcontrol"@) ==> spec_mac_key(name) == Some(
                MacosPttKey::Modifier { key_code: 62, flag_mask: 0x40000 },
            )
            &&& (n == "right-shift"@ || n == "right_shift"@ || n == "rightshift"@ || n
                == "rshift"@) ==> spec_mac_key(name) == Some(
                MacosPttKey::Modifier { key_code: 60, flag_mask: 0x20000 },
            )
            &&& n == "f1"@ ==> spec_mac_key(name) == Some(MacosPttKey::Regular { key_code: 122 })
            &&& n == "f2"@ ==> spec_mac_key(name) == Some(MacosPttKey::Regular { key_code: 120 })
            &&& n == "f3"@ ==> spec_mac_key(name) == Some(MacosPttKey::Regular { key_code: 99 })
            &&& n == "f4"@ ==> spec_mac_key(name) == Some(MacosPttKey::Regular { key_code: 118 })
            &&& n == "f5"@ ==> spec_mac_key(name) == Some(MacosPttKey::Regular { key_code: 96 })
            &&& n == "f6"@ ==> spec_mac_key(name) == Some(MacosPttKey::Regular { key_code: 97 })
            &&& n == "f7"@ ==> spec_mac_key(name) == Some(MacosPttKey::Regular { key_code: 98 })
            &&& n == "f8"@ ==> spec_mac_key(name) == Some(MacosPttKey::Regular { key_code: 100 })
            &&& n == "f9"@ ==> spec_mac_key(name) == Some(MacosPttKey::Regular { key_code: 101 })
            &&& n == "f10"@ ==> spec_mac_key(name) == Some(MacosPttKey::Regular { key_code: 109 })
            &&& n == "f11"@ ==> spec_mac_key(name) == Some(MacosPttKey::Regular { key_code: 103 })
            &&& n == "f12"@ ==> spec_mac_key(name) == Some(MacosPttKey::Regular { key_code: 111 })
            &&& n == seq!['a'] ==> spec_mac_key(name) == Some(MacosPttKey::Regular { key_code: 0 })
            &&& n == seq!['s'] ==> spec_mac_key(name) == Some(MacosPttKey::Regular { key_code: 1 })
            &&& n == seq!['d'] ==> spec_mac_key(name) == Some(MacosPttKey::Regular { key_code: 2 })
            &&& n == seq!['f'] ==> spec_mac_key(name) == Some(MacosPttKey::Regular { key_code: 3 })
            &&& n == seq!['h'] ==> spec_mac_key(name) == Some(MacosPttKey::Regular { key_code: 4 })
            &&& n == seq!['g'] ==> spec_mac_key(name) == Some(MacosPttKey::Regular { key_code: 5 })
            &&& n == seq!['z'] ==> spec_mac_key(name) == Some(MacosPttKey::Regular { key_code: 6 })
            &&& n == seq!['x'] ==> spec_mac_key(name) == Some(MacosPttKey::Regular { key_code: 7 })
            &&& n == seq!['c'] ==> spec_mac_key(name) == Some(MacosPttKey::Regular { key_code: 8 })
            &&& n == seq!['v'] ==> spec_mac_key(name) == Some(MacosPttKey::Regular { key_code: 9 })
            &&& n == seq!['b'] ==> spec_mac_key(name) == Some(MacosPttKey::Regular { key_code: 11 })
            &&& n == seq!['q'] ==> spec_mac_key(name) == Some(MacosPttKey::Regular { key_code: 12 })
            &&& n == seq!['w'] ==> spec_mac_key(name) == Some(MacosPttKey::Regular { key_code: 13 })
            &&& n == seq!['e'] ==> spec_mac_key(name) == Some(MacosPttKey::Regular { key_code: 14 })
            &&& n == seq!['r'] ==> spec_mac_key(name) == Some(MacosPttKey::Regular { key_code: 15 })
            &&& n == seq!['y'] ==> spec_mac_key(name) == Some(MacosPttKey::Regular { key_code: 16 })
            &&& n == seq!['t'] ==> spec_mac_key(name) == Some(MacosPttKey::Regular { key_code: 17 })
            &&& n == seq!['o'] ==> spec_mac_key(name) == Some(MacosPttKey::Regular { key_code: 31 })
            &&& n == seq!['u'] ==> spec_mac_key(name) == Some(MacosPttKey::Regular { key_code: 32 })
            &&& n == seq!['i'] ==> spec_mac_key(name) == Some(MacosPttKey::Regular { key_code: 34 })
            &&& n == seq!['p'] ==> spec_mac_key(name) == Some(MacosPttKey::Regular { key_code: 35 })
            &&& n == seq!['l'] ==> spec_mac_key(name) == Some(MacosPttKey::Regular { key_code: 37 })
            &&& n == seq!['j'] ==> spec_mac_key(name) == Some(MacosPttKey::Regular { key_code: 38 })
            &&& n == seq!['k'] ==> spec_mac_key(name) == Some(MacosPttKey::Regular { key_code: 40 })
            &&& n == seq!['n'] ==> spec_mac_key(name) == Some(MacosPttKey::Regular { key_code: 45 })
            &&& n == seq!['m'] ==> spec_mac_key(name) == Some(MacosPttKey::Regular { key_code: 46 })
            &&& (n.len() == 1 && '0' <= n[0] <= '9') ==> spec_mac_key(name) is None
        }),
{
    reveal_strlit("f1");
    reveal_strlit("f2");
    reveal_strlit("f3");
    reveal_strlit("f4");
    reveal_strlit("f5");
    reveal_strlit("f6");
    reveal_strlit("f7");
    reveal_strlit("f8");
    reveal_strlit("f9");
    reveal_strlit("f10");
    reveal_strlit("f11");
    reveal_strlit("f12");
    reveal_strlit("space");
    reveal_strlit("enter");
    reveal_strlit("capslock");
    reveal_strlit("caps-lock");
    reveal_strlit("caps_lock");
    reveal_strlit("left-win");
    reveal_strlit("left_win");
    reveal_strlit("leftwin");
    reveal_strlit("lwin");
    reveal_strlit("windows");
    reveal_strlit("win");
    reveal_strlit("right-control");
    reveal_strlit("right_control");
    reveal_strlit("rightcontrol");
    reveal_strlit("rctrl");
    reveal_strlit("rcontrol");
    reveal_strlit("right-shift");
    reveal_strlit("right_shift");
    reveal_strlit("rightshift");
    reveal_strlit("rshift");
    reveal_strlit("fn");
    reveal_strlit("function");
    reveal_strlit("globe");
    assert("f1"@ =~= seq!['f', '1']);
    assert("f2"@ =~= seq!['f', '2']);
    assert("f3"@ =~= seq!['f', '3']);
    assert("f4"@ =~= seq!['f', '4']);
    assert("f5"@ =~= seq!['f', '5']);
    assert("f6"@ =~= seq!['f', '6']);
    assert("f7"@ =~= seq!['f', '7']);
    assert("f8"@ =~= seq!['f', '8']);
    assert("f9"@ =~= seq!['f', '9']);
    assert("f10"@ =~= seq!['f', '1', '0']);
    assert("f11"@ =~= seq!['f', '1', '1']);
    assert("f12"@ =~= seq!['f', '1', '2']);
    assert("space"@ =~= seq!['s', 'p', 'a', 'c', 'e']);
    assert("enter"@ =~= seq!['e', 'n', 't', 'e', 'r']);
    assert("capslock"@ =~= seq!['c', 'a', 'p', 's', 'l', 'o', 'c', 'k']);
    assert("caps-lock"@ =~= seq!['c', 'a', 'p', 's', '-', 'l', 'o', 'c', 'k']);
    assert("caps_lock"@ =~= seq!['c', 'a', 'p', 's', '_', 'l', 'o', 'c', 'k']);
    assert("left-win"@ =~= seq!['l', 'e', 'f', 't', '-', 'w', 'i', 'n']);
    assert("left_win"@ =~= seq!['l', 'e', 'f', 't', '_', 'w', 'i', 'n']);
    assert("leftwin"@ =~= seq!['l', 'e', 'f', 't', 'w', 'i', 'n']);
    assert("lwin"@ =~= seq!['l', 'w', 'i', 'n']);
    assert("windows"@ =~= seq!['w', 'i', 'n', 'd', 'o', 'w', 's']);
    assert("win"@ =~= seq!['w', 'i', 'n']);
    assert("right-control"@ =~= seq!['r', 'i', 'g', 'h', 't', '-', 'c', 'o', 'n', 't', 'r', 'o', 'l']);
    assert("right_control"@ =~= seq!['r', 'i', 'g', 'h', 't', '_', 'c', 'o', 'n', 't', 'r', 'o', 'l']);
    assert("rightcontrol"@ =~= seq!['r', 'i', 'g', 'h', 't', 'c', 'o', 'n', 't', 'r', 'o', 'l']);
    assert("rctrl"@ =~= seq!['r', 'c', 't', 'r', 'l']);
    assert("rcontrol"@ =~= seq!['r', 'c', 'o', 'n', 't', 'r', 'o', 'l']);
    assert("right-shift"@ =~= seq!['r', 'i', 'g', 'h', 't', '-', 's', 'h', 'i', 'f', 't']);
    assert("right_shift"@ =~= seq!['r', 'i', 'g', 'h', 't', '_', 's', 'h', 'i', 'f', 't']);
    assert("rightshift"@ =~= seq!['r', 'i', 'g', 'h', 't', 's', 'h', 'i', 'f', 't']);
    assert("rshift"@ =~= seq!['r', 's', 'h', 'i', 'f', 't']);
    assert("fn"@ =~= seq!['f', 'n']);
    assert("function"@ =~= seq!['f', 'u', 'n', 'c', 't', 'i', 'o', 'n']);
    assert("globe"@ =~= seq!['g', 'l', 'o', 'b', 'e']);
}

/// The key a PTT key name stands for.
pub fn parse_ptt_key(name: &str) -> (res: Result<MacosPttKey, PttKeyError>)
    ensures
        match spec_mac_key(name@) {
            Some(k) => res == Ok::<MacosPttKey, PttKeyError>(k),
            None => if normalized(name@).len() == 1 && (normalized(name@)[0] as u32) < 128 {
                res matches Err(PttKeyError::UnsupportedLetter(n)) && n@ == name@
            } else {
                res matches Err(PttKeyError::Unsupported(n)) && n@ == name@
            },
        },
{
    let n = normalized_chars(name);
    if let Some(code) = parse_function_key(&n) {
        return Ok(MacosPttKey::Regular { key_code: code });
    }
    if chars_eq_str(&n, "space") {
        return Ok(MacosPttKey::Regular { key_code: 49 });
    }
    if chars_eq_str(&n, "enter") {
        return Ok(MacosPttKey::Regular { key_code: 36 });
    }
    if chars_eq_str(&n, "capslock") || chars_eq_str(&n, "caps-lock") || chars_eq_str(&n, "caps_lock") {
        return Ok(MacosPttKey::CapsLock { key_code: MACOS_KEY_CODE_CAPS_LOCK });
    }
    if chars_eq_str(&n, "fn") || chars_eq_str(&n, "function") || chars_eq_str(&n, "globe") {
        return Ok(MacosPttKey::Fn { flag_mask: KCG_EVENT_FLAG_MASK_SECONDARY_FN });
    }
    if chars_eq_str(&n, "left-win") || chars_eq_str(&n, "left_win") || chars_eq_str(&n, "leftwin")
        || chars_eq_str(&n, "lwin") || chars_eq_str(&n, "windows") || chars_eq_str(&n, "win") {
        return Ok(MacosPttKey::Modifier { key_code: 55, flag_mask: KCG_EVENT_FLAG_MASK_COMMAND });
    }
    if chars_eq_str(&n, "right-control") || chars_eq_str(&n, "right_control") || chars_eq_str(
        &n,
        "rightcontrol",
    ) || chars_eq_str(&n, "rctrl") || chars_eq_str(&n, "rcontrol") {
        return Ok(MacosPttKey::Modifier { key_code: 62, flag_mask: KCG_EVENT_FLAG_MASK_CONTROL });
    }
    if chars_eq_str(&n, "right-shift") || chars_eq_str(&n, "right_shift") || chars_eq_str(
        &n,
        "rightshift",
    ) || chars_eq_str(&n, "rshift") {
        return Ok(MacosPttKey::Modifier { key_code: 60, flag_mask: KCG_EVENT_FLAG_MASK_SHIFT });
    }
    if n.len() == 1 && (n[0] as u32) < 128 {
        return match parse_letter_key(n[0]) {
            Some(key_code) => Ok(MacosPttKey::Regular { key_code }),
            None => Err(PttKeyError::UnsupportedLetter(to_string(name))),
        };
    }
    Err(PttKeyError::Unsupported(to_string(name)))
}

/// The key code a short tap of the key is replayed with (`fn` is not
/// replayed).
pub open spec fn spec_tap_key_code(key: MacosPttKey) -> Option<u16> {
    match key {
        MacosPttKey::CapsLock { key_code } => Some(key_code as u16),
        MacosPttKey::Fn { .. } => None,
        MacosPttKey::Regular { key_code } => Some(key_code),
        MacosPttKey::Modifier { key_code, .. } => Some(key_code as u16),
    }
}

/// The key code to replay a short tap with.
pub fn tap_key_code(key: MacosPttKey) -> (res: Option<u16>)
    ensures
        res == spec_tap_key_code(key),
{
    match key {
        MacosPttKey::CapsLock { key_code } => Some(#[verifier::truncate] (key_code as u16)),
        MacosPttKey::Fn { .. } => None,
        MacosPttKey::Regular { key_code } => Some(key_code),
        MacosPttKey::Modifier { key_code, .. } => Some(#[verifier::truncate] (key_code as u16)),
    }
}

/// How the event tap treats a keyboard event.
pub struct KeyEventOutcome {
    /// The event concerns the PTT key (and is swallowed).
    pub handled: bool,
    /// The press or release to report.
    pub event: Option<PttEvent>,
    /// Whether the key's modifier flag is now held.
    pub modifier_pressed: bool,
}

/// The outcome of a Quartz keyboard event of type `event_type` with this key
/// code and modifier flags, given whether the key's modifier was held.
pub open spec fn spec_key_event(key: MacosPttKey, modifier_pressed: bool, event_type: u32, key_code: i64, flags: u64) -> (bool, Option<PttEvent>, bool) {
    match key {
        MacosPttKey::CapsLock { key_code: expected } => {
            let handled = key_code == expected && (event_type == KCG_EVENT_KEY_DOWN || event_type
                == KCG_EVENT_KEY_UP || event_type == KCG_EVENT_FLAGS_CHANGED);
            (handled, None, modifier_pressed)
        },
        MacosPttKey::Fn { flag_mask } => {
            let pressed = (flags & flag_mask) != 0;
            if event_type == KCG_EVENT_FLAGS_CHANGED && pressed != modifier_pressed {
                (true, Some(if pressed { PttEvent::Press } else { PttEvent::Release }), pressed)
            } else {
                (false, None, modifier_pressed)
            }
        },
        MacosPttKey::Regular { key_code: expected } => {
            if key_code == expected as i64 && event_type == KCG_EVENT_KEY_DOWN {
                (true, Some(PttEvent::Press), modifier_pressed)
            } else if key_code == expected as i64 && event_type == KCG_EVENT_KEY_UP {
                (true, Some(PttEvent::Release), modifier_pressed)
            } else {
                (false, None, modifier_pressed)
            }
        },
        MacosPttKey::Modifier { key_code: expected, flag_mask } => {
            if event_type == KCG_EVENT_FLAGS_CHANGED && key_code == expected {
                let pressed = (flags & flag_mask) != 0;
                let press = pressed != modifier_pressed && pressed;
                (true, Some(if press { PttEvent::Press } else { PttEvent::Release }), press)
            } else {
                (false, None, modifier_pressed)
            }
        },
    }
}

/// Classifies a keyboard event for the PTT key.
pub fn classify_key_event(key: MacosPttKey, modifier_pressed: bool, event_type: u32, key_code: i64, flags: u64) -> (res: KeyEventOutcome)
    ensures
        (res.handled, res.event, res.modifier_pressed) == spec_key_event(key, modifier_pressed, event_type, key_code, flags),
{
    match key {
        MacosPttKey::CapsLock { key_code: expected } => {
            let handled = key_code == expected && (event_type == KCG_EVENT_KEY_DOWN || event_type
                == KCG_EVENT_KEY_UP || event_type == KCG_EVENT_FLAGS_CHANGED);
            KeyEventOutcome { handled, event: None, modifier_pressed }
        },
        MacosPttKey::Fn { flag_mask } => {
            let pressed = (flags & flag_mask) != 0;
            if event_type == KCG_EVENT_FLAGS_CHANGED && pressed != modifier_pressed {
                KeyEventOutcome {
                    handled: true,
                    event: Some(if pressed { PttEvent::Press } else { PttEvent::Release }),
                    modifier_pressed: pressed,
                }
            } else {
                KeyEventOutcome { handled: false, event: None, modifier_pressed }
            }
        },
        MacosPttKey::Regular { key_code: expected } => {
            if key_code == expected as i64 && event_type == KCG_EVENT_KEY_DOWN {
                KeyEventOutcome { handled: true, event: Some(PttEvent::Press), modifier_pressed }
            } else if key_code == expected as i64 && event_type == KCG_EVENT_KEY_UP {
                KeyEventOutcome { handled: true, event: Some(PttEvent::Release), modifier_pressed }
            } else {
                KeyEventOutcome { handled: false, event: None, modifier_pressed }
            }
        },
        MacosPttKey::Modifier { key_code: expected, flag_mask } => {
            if event_type == KCG_EVENT_FLAGS_CHANGED && key_code == expected {
                let pressed = (flags & flag_mask) != 0;
                let press = pressed != modifier_pressed && pressed;
                KeyEventOutcome {
                    handled: true,
                    event: Some(if press { PttEvent::Press } else { PttEvent::Release }),
                    modifier_pressed: press,
                }
            } else {
                KeyEventOutcome { handled: false, event: None, modifier_pressed }
            }
        },
    }
}

/// The event reported for a HID value: a change of the Caps Lock key's
/// state while Caps Lock is the PTT key.
pub open spec fn spec_hid_event(usage_page: u32, usage: u32, pressed: bool, key_is_caps_lock: bool, modifier_pressed: bool) -> Option<PttEvent> {
    if usage_page != HID_PAGE_KEYBOARD_OR_KEYPAD || usage != HID_USAGE_KEYBOARD_CAPS_LOCK {
        None
    } else if key_is_caps_lock && pressed != modifier_pressed {
        Some(if pressed { PttEvent::Press } else { PttEvent::Release })
    } else {
        None
    }
}

/// Classifies a HID input value.
pub fn classify_hid_value(usage_page: u32, usage: u32, pressed: bool, key_is_caps_lock: bool, modifier_pressed: bool) -> (res: Option<PttEvent>)
    ensures
        res == spec_hid_event(usage_page, usage, pressed, key_is_caps_lock, modifier_pressed),
{
    if usage_page != HID_PAGE_KEYBOARD_OR_KEYPAD || usage != HID_USAGE_KEYBOARD_CAPS_LOCK {
        None
    } else if key_is_caps_lock && pressed != modifier_pressed {
        Some(if pressed { PttEvent::Press } else { PttEvent::Release })
    } else {
        None
    }
}

/// A system call's status: success for 0, else an error naming the call and
/// the status.
pub fn os_status(status: i32, label: &str) -> (res: Result<(), String>)
    ensures
        status == 0 ==> res is Ok,
        status != 0 ==> (res matches Err(m) && m@ == label@ + " failed with status "@ + signed_decimal(status as int)),
{
    if status == 0 {
        return Ok(());
    }
    let mut out = to_string(label);
    string_push_str(&mut out, " failed with status ");
    let digits = i32_string(status);
    string_push_str(&mut out, digits.as_str());
    Err(out)
}

} // verus!
