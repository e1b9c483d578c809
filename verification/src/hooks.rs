//! Status files written by agent hooks: where they live and what they
//! say.

use crate::paths::{join, join_spec};
use crate::session::Status;
use crate::text::{chars_eq, chars_of, string_of, trim, trim_spec};
use vstd::prelude::*;

verus! {

/// The directory all hook status files live under.
pub open spec fn hook_status_base() -> Seq<char> {
    "/tmp/aoe-hooks"@
}

/// The directory holding the hook status file of instance
/// `instance_id`.
pub fn hook_status_dir(instance_id: &str) -> (r: String)
    ensures
        r@ == join_spec(hook_status_base(), instance_id@),
{
    let base = chars_of("/tmp/aoe-hooks");
    string_of(&join(&base, &chars_of(instance_id)))
}

/// The status a hook status file reports: its trimmed content must be
/// exactly `running`, `waiting` or `idle`.
pub open spec fn hook_status(content: Seq<char>) -> Option<Status> {
    let t = trim_spec(content);
    if t == "running"@ {
        Some(Status::Running)
    } else if t == "waiting"@ {
        Some(Status::Waiting)
    } else if t == "idle"@ {
        Some(Status::Idle)
    } else {
        None
    }
}

/// Reads the status a hook status file reports.
pub fn parse_hook_status(content: &str) -> (r: Option<Status>)
    ensures
        r == hook_status(content@),
{
    let t = trim(&chars_of(content));
    if chars_eq(&t, &chars_of("running")) {
        Some(Status::Running)
    } else if chars_eq(&t, &chars_of("waiting")) {
        Some(Status::Waiting)
    } else if chars_eq(&t, &chars_of("idle")) {
        Some(Status::Idle)
    } else {
        None
    }
}

/// Seconds after which a status file no longer counts (a crashed session
/// leaves its last status behind).
pub const STALENESS_THRESHOLD_SECS: u64 = 300;

/// Whether a status file last written `secs` seconds and `nanos`
/// nanoseconds ago is too old to trust: strictly more than the threshold.
pub fn is_stale(secs: u64, nanos: u32) -> (r: bool)
    ensures
        r == (secs > STALENESS_THRESHOLD_SECS || (secs == STALENESS_THRESHOLD_SECS && nanos > 0)),
{
    secs > STALENESS_THRESHOLD_SECS || (secs == STALENESS_THRESHOLD_SECS && nanos > 0)
}

/// The status a hook status file reports, from what was read of it: its
/// age (seconds and nanoseconds, none where it could not be found out)
/// and its content (none where it could not be read).  A file of unknown
/// age, a stale file and an unread file report nothing; else its content
/// decides.
pub fn read_status(age: Option<(u64, u32)>, content: Option<&str>) -> (r: Option<Status>)
    ensures
        match age {
            None => r is None,
            Some((secs, nanos)) => if secs > STALENESS_THRESHOLD_SECS || (secs == STALENESS_THRESHOLD_SECS
                && nanos > 0) {
                r is None
            } else {
                match content {
                    None => r is None,
                    Some(c) => r == hook_status(c@),
                }
            },
        },
{
    match age {
        None => None,
        Some((secs, nanos)) => if is_stale(secs, nanos) {
            None
        } else {
            match content {
                None => None,
                Some(c) => parse_hook_status(c),
            }
        },
    }
}

} // verus!
