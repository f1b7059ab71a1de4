//! The values exchanged between the push-to-talk key, the windows and the
//! bridge loop.
use std::sync::atomic::AtomicBool;
use std::sync::Arc;

use vstd::prelude::*;

verus! {

/// A window that can receive pasted text: its handle (a process id on macOS),
/// title and process name.
pub struct WindowInfo {
    pub hwnd: isize,
    pub title: String,
    pub process_name: String,
}

impl Clone for WindowInfo {
    fn clone(&self) -> (res: Self)
        ensures
            res.hwnd == self.hwnd,
            res.title@ == self.title@,
            res.process_name@ == self.process_name@,
    {
        WindowInfo { hwnd: self.hwnd, title: self.title.clone(), process_name: self.process_name.clone() }
    }
}

/// The audible cues of the bridge.
#[derive(Clone, Copy)]
pub enum CueKind {
    Listen,
    Recognized,
    Pasted,
    Error,
}

/// A push-to-talk activation: the window in front at key-down and the signal
/// raised when the key is released.
pub struct PttActivation {
    pub target_window: WindowInfo,
    pub stop_signal: Arc<AtomicBool>,
}

} // verus!
