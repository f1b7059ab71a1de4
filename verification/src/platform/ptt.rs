//! The push-to-talk key state machine shared by the macOS and Windows key
//! workers: a press held for the hold time starts a recording, its release
//! stops it, and a short tap can be replayed as an ordinary key press.
use vstd::prelude::*;

verus! {

/// A raw key event from the keyboard hook, or what the worker's wait ended
/// with.
pub enum PttEvent {
    Press,
    Release,
    /// The wait for the next key event timed out.
    Timeout,
}

/// What the worker does after an event.
pub enum PttAction {
    Nothing,
    /// A press began: note its time and the foreground window.
    BeginPress,
    /// The key was held long enough: start a recording and hand the
    /// activation (with a fresh stop signal) to the bridge.
    Activate,
    /// The key was released after an activation: raise the stop signal.
    Stop,
    /// A short tap ended: replay it as an ordinary key press.
    ReplayTap,
}

/// The worker's state.
pub struct PttState {
    pub physical_pressed: bool,
    pub activated: bool,
}

/// The action and next state for an event.
pub open spec fn spec_ptt_step(s: PttState, event: PttEvent, passthrough: bool) -> (PttState, PttAction) {
    match event {
        PttEvent::Press => if s.physical_pressed {
            (s, PttAction::Nothing)
        } else {
            (PttState { physical_pressed: true, activated: false }, PttAction::BeginPress)
        },
        PttEvent::Release => {
            let action = if s.activated {
                PttAction::Stop
            } else if s.physical_pressed && passthrough {
                PttAction::ReplayTap
            } else {
                PttAction::Nothing
            };
            (PttState { physical_pressed: false, activated: false }, action)
        },
        PttEvent::Timeout => if !s.physical_pressed || s.activated {
            (s, PttAction::Nothing)
        } else {
            (PttState { physical_pressed: true, activated: true }, PttAction::Activate)
        },
    }
}

/// A reachable state: never activated without the key being down.
pub open spec fn ptt_wf(s: PttState) -> bool {
    s.activated ==> s.physical_pressed
}

impl PttState {
    pub fn new() -> (res: Self)
        ensures
            !res.physical_pressed,
            !res.activated,
    {
        PttState { physical_pressed: false, activated: false }
    }

    /// Takes in an event and says what to do.
    pub fn step(&mut self, event: PttEvent, passthrough_short_press: bool) -> (action: PttAction)
        ensures
            (*final(self), action) == spec_ptt_step(*old(self), event, passthrough_short_press),
    {
        match event {
            PttEvent::Press => {
                if self.physical_pressed {
                    return PttAction::Nothing;
                }
                self.physical_pressed = true;
                self.activated = false;
                PttAction::BeginPress
            },
            PttEvent::Release => {
                let action = if self.activated {
                    PttAction::Stop
                } else if self.physical_pressed && passthrough_short_press {
                    PttAction::ReplayTap
                } else {
                    PttAction::Nothing
                };
                self.physical_pressed = false;
                self.activated = false;
                action
            },
            PttEvent::Timeout => {
                if !self.physical_pressed || self.activated {
                    return PttAction::Nothing;
                }
                self.activated = true;
                PttAction::Activate
            },
        }
    }

    /// How long the worker waits for the next key event, in milliseconds: the
    /// rest of the hold time while a press is not yet activated, else 50.
    pub fn wait_ms(&self, elapsed_ms: u64, hold_ms: u64) -> (res: u64)
        ensures
            self.physical_pressed && !self.activated ==> res == (if elapsed_ms >= hold_ms {
                0
            } else {
                hold_ms - elapsed_ms
            }),
            !(self.physical_pressed && !self.activated) ==> res == 50,
    {
        if self.physical_pressed && !self.activated {
            if elapsed_ms >= hold_ms {
                0
            } else {
                hold_ms - elapsed_ms
            }
        } else {
            50
        }
    }
}

/// A press of the idle key begins a press (not yet activated); a repeated
/// press while the key is down changes nothing; a timeout while the key is
/// held unactivated activates it; a release always leaves the key up and
/// unactivated; and a timeout with the key up does nothing.
pub proof fn law_step_transitions(s: PttState, passthrough: bool)
    ensures
        !s.physical_pressed ==> spec_ptt_step(s, PttEvent::Press, passthrough) == (
            PttState { physical_pressed: true, activated: false },
            PttAction::BeginPress,
        ),
        s.physical_pressed ==> spec_ptt_step(s, PttEvent::Press, passthrough) == (
            s,
            PttAction::Nothing,
        ),
        (s.physical_pressed && !s.activated) ==> spec_ptt_step(s, PttEvent::Timeout, passthrough) == (
            PttState { physical_pressed: true, activated: true },
            PttAction::Activate,
        ),
        !s.physical_pressed ==> spec_ptt_step(s, PttEvent::Timeout, passthrough) == (
            s,
            PttAction::Nothing,
        ),
        spec_ptt_step(s, PttEvent::Release, passthrough).0 == (PttState {
            physical_pressed: false,
            activated: false,
        }),
        (!s.physical_pressed && !s.activated) ==> spec_ptt_step(s, PttEvent::Release, passthrough).1
            is Nothing,
{
}

/// Every step keeps the state reachable.
pub proof fn law_ptt_step_keeps_wf(s: PttState, event: PttEvent, passthrough: bool)
    requires
        ptt_wf(s),
    ensures
        ptt_wf(spec_ptt_step(s, event, passthrough).0),
{
}

/// A press activates at most once: after an activation, further timeouts and
/// repeated presses do nothing until the key is released.
pub proof fn law_single_activation_per_press(s: PttState, event: PttEvent, passthrough: bool)
    requires
        ptt_wf(s),
        s.activated,
        !(event is Release),
    ensures
        spec_ptt_step(s, event, passthrough).1 is Nothing,
        spec_ptt_step(s, event, passthrough).0 == s,
{
}

/// Only a timeout while the key is down and not yet activated starts a
/// recording.
pub proof fn law_activation_needs_hold(s: PttState, event: PttEvent, passthrough: bool)
    ensures
        spec_ptt_step(s, event, passthrough).1 is Activate <==> (event is Timeout && s.physical_pressed
            && !s.activated),
{
}

/// Releasing an activated key always stops the recording and never replays
/// the key; a tap released before the hold time is replayed only with
/// passthrough on, and never starts a recording.
pub proof fn law_release(s: PttState, passthrough: bool)
    requires
        ptt_wf(s),
    ensures
        s.activated ==> spec_ptt_step(s, PttEvent::Release, passthrough).1 is Stop,
        (!s.activated && s.physical_pressed) ==> (spec_ptt_step(s, PttEvent::Release, passthrough).1
            is ReplayTap <==> passthrough),
        !spec_ptt_step(s, PttEvent::Release, passthrough).0.physical_pressed,
{
}

} // verus!
