//! The macOS permissions the bridge needs (Accessibility and Input
//! Monitoring) and what it tells the user when they are missing.
use vstd::prelude::*;

use crate::text::{string_push_str, to_string};

verus! {

/// Whether each permission is granted.
#[derive(Clone, Copy)]
pub struct PermissionStatus {
    pub accessibility: bool,
    pub input_monitoring: bool,
}

/// The names of the missing permissions, in this order: Accessibility, Input
/// Monitoring.
pub open spec fn spec_missing(status: PermissionStatus) -> Seq<Seq<char>> {
    let a: Seq<Seq<char>> = if !status.accessibility {
        seq!["Accessibility"@]
    } else {
        Seq::empty()
    };
    if !status.input_monitoring {
        a.push("Input Monitoring"@)
    } else {
        a
    }
}

/// The names of the missing permissions.
pub fn missing_permission_names(status: PermissionStatus) -> (res: Vec<&'static str>)
    ensures
        Seq::new(res@.len(), |i: int| res@[i]@) == spec_missing(status),
{
    let mut missing: Vec<&'static str> = Vec::new();
    if !status.accessibility {
        missing.push("Accessibility");
    }
    if !status.input_monitoring {
        missing.push("Input Monitoring");
    }
    assert(Seq::new(missing@.len(), |i: int| missing@[i]@) =~= spec_missing(status));
    missing
}

pub open spec fn spec_hint() -> Seq<char> {
    "Grant access to the host app in System Settings -> Privacy & Security. If you run via cargo, the host app is usually Terminal or iTerm; if you run a packaged build, grant the packaged voice_bridge app itself."@
}

/// Where to grant the permissions.
pub fn host_permission_hint() -> (res: &'static str)
    ensures
        res@ == spec_hint(),
{
    "Grant access to the host app in System Settings -> Privacy & Security. If you run via cargo, the host app is usually Terminal or iTerm; if you run a packaged build, grant the packaged voice_bridge app itself."
}

pub open spec fn granted_but_failed() -> Seq<char> {
    "Accessibility and Input Monitoring appear granted, but the event tap still failed. Re-add the host app in System Settings -> Privacy & Security, then restart the host app or log out and back in. "@
}

/// The message for a failed event tap: which permissions are missing (joined
/// with commas) and the hint; or, when none is missing, how to re-grant them.
pub open spec fn spec_failure_message(status: PermissionStatus) -> Seq<char> {
    let missing = spec_missing(status);
    if missing.len() == 0 {
        granted_but_failed() + spec_hint()
    } else {
        "macOS permissions are missing: "@ + crate::json::join(missing, ", "@) + ". "@ + spec_hint()
    }
}

/// The message for a failed event tap.
pub fn permission_failure_message(status: PermissionStatus) -> (res: String)
    ensures
        res@ == spec_failure_message(status),
{
    let missing = missing_permission_names(status);
    if missing.len() == 0 {
        let mut out = to_string(
            "Accessibility and Input Monitoring appear granted, but the event tap still failed. Re-add the host app in System Settings -> Privacy & Security, then restart the host app or log out and back in. ",
        );
        string_push_str(&mut out, host_permission_hint());
        return out;
    }
    let mut out = to_string("macOS permissions are missing: ");
    let ghost m = spec_missing(status);
    string_push_str(&mut out, missing[0]);
    if missing.len() == 2 {
        string_push_str(&mut out, ", ");
        string_push_str(&mut out, missing[1]);
    }
    proof {
        let joined = crate::json::join(m, ", "@);
        if m.len() == 2 {
            assert(m.drop_last().len() == 1);
            assert(crate::json::join(m.drop_last(), ", "@) == m[0]);
        }
    }
    string_push_str(&mut out, ". ");
    string_push_str(&mut out, host_permission_hint());
    out
}

/// The permissions are all granted; else the failure message.
pub fn check_permissions(status: PermissionStatus) -> (res: Result<PermissionStatus, String>)
    ensures
        spec_missing(status).len() == 0 ==> res == Ok::<PermissionStatus, String>(status),
        spec_missing(status).len() > 0 ==> (res matches Err(m) && m@ == spec_failure_message(status)),
{
    let missing = missing_permission_names(status);
    if missing.len() > 0 {
        return Err(permission_failure_message(status));
    }
    Ok(status)
}

} // verus!
