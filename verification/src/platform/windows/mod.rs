//! Windows rules: paste targets and push-to-talk keys.
pub mod ptt;
pub mod window;

pub use ptt::{parse_ptt_key, PttKeyError};
pub use window::is_usable_target_window;
