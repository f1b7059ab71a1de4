//! The platform services of the bridge: the window and key rules of each
//! desktop system, the push-to-talk key state machine they share, and the
//! interfaces that the system-specific code implements.
pub mod factory;
pub mod macos;
pub mod ptt;
pub mod traits;
pub mod types;
pub mod windows;

pub use factory::PlatformInitOptions;
pub use traits::{CuePlayer, TextInjector, WindowService};
pub use types::{CueKind, PttActivation, WindowInfo};
