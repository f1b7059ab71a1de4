//! What the system-specific code provides to the bridge loop.
use vstd::prelude::*;

use crate::platform::types::{CueKind, WindowInfo};

verus! {

/// Finds the foreground window and decides whether a window may receive text.
pub trait WindowService {
    fn current_target(&self) -> Option<WindowInfo>;

    fn is_usable_target(
        &self,
        target: Option<&WindowInfo>,
        require_title: &str,
        forbid_host_window_target: bool,
    ) -> bool;
}

/// Pastes text into a window, optionally pressing Enter after it.
pub trait TextInjector {
    fn paste_text(&self, target: &WindowInfo, text: &str, submit: bool, paste_delay_ms: u64) -> Result<
        (),
        String,
    >;
}

/// Plays an audible cue.
pub trait CuePlayer {
    fn play(&self, cue: CueKind);
}

} // verus!
