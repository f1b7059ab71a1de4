//! macOS rules: paste targets, host applications, permissions and
//! push-to-talk keys.
pub mod permissions;
pub mod ptt;
pub mod window;

pub use permissions::{
    host_permission_hint, missing_permission_names, permission_failure_message, PermissionStatus,
};
pub use ptt::{parse_ptt_key, MacosPttKey};
pub use window::{get_frontmost_window_info, is_usable_target_window, MacosHostContext};
