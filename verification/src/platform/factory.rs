//! The settings from which the platform services are created.
use vstd::prelude::*;

verus! {

/// The push-to-talk key, its hold time, whether short taps are replayed, and
/// whether the bridge's own window is refused as a paste target.
pub struct PlatformInitOptions {
    pub ptt_key: String,
    pub ptt_hold_ms: u64,
    pub ptt_short_press_passthrough: bool,
    pub forbid_host_window_target: bool,
}

} // verus!
