//! Which Windows window may receive pasted text.
use vstd::prelude::*;

use crate::platform::types::WindowInfo;
use crate::text::{
    ascii_lower, chars_contains, chars_of, contains_seq, is_blank, lower_chars, normalized,
    normalized_chars, str_is_blank,
};

verus! {

/// A window title satisfies the required-title filter: the filter is blank,
/// or the title holds the trimmed filter, ignoring ASCII case.
pub open spec fn title_matches(title: Seq<char>, require_title: Seq<char>) -> bool {
    is_blank(require_title) || contains_seq(ascii_lower(title), normalized(require_title))
}

/// Whether a title passes the required-title filter.
pub fn title_passes(title: &str, require_title: &str) -> (r: bool)
    ensures
        r == title_matches(title@, require_title@),
{
    if str_is_blank(require_title) {
        return true;
    }
    let hay = lower_chars(&chars_of(title));
    let needle = normalized_chars(require_title);
    chars_contains(&hay, &needle)
}

/// A usable Windows target: a window with a handle, not the bridge's own
/// window when that is excluded, whose title passes the filter.
pub open spec fn spec_usable_target(window: Option<WindowInfo>, require_title: Seq<char>, bridge_host_hwnd: Option<isize>) -> bool {
    match window {
        None => false,
        Some(w) => {
            &&& w.hwnd != 0
            &&& (bridge_host_hwnd matches Some(h) ==> w.hwnd != h)
            &&& title_matches(w.title@, require_title)
        },
    }
}

/// Whether text may be pasted into `window`.
pub fn is_usable_target_window(window: Option<&WindowInfo>, require_title: &str, bridge_host_hwnd: Option<isize>) -> (r: bool)
    ensures
        r == spec_usable_target(
            match window {
                Some(w) => Some(*w),
                None => None,
            },
            require_title@,
            bridge_host_hwnd,
        ),
{
    let w = match window {
        Some(w) => w,
        None => {
            return false;
        },
    };
    if w.hwnd == 0 {
        return false;
    }
    match bridge_host_hwnd {
        Some(h) => {
            if w.hwnd == h {
                return false;
            }
        },
        None => {},
    }
    title_passes(w.title.as_str(), require_title)
}

} // verus!
