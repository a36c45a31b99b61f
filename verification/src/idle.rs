//! Idle collaborator: seconds since the last user input.
//!
//! The engine may consult this value to decide whether to auto-pause; it
//! is a query with no side effects. Platform-specific sources live with
//! the caller; this build has no such source and reports zero, which the
//! interface documents as "unsupported or unknown".

use vstd::prelude::*;

verus! {

/// Seconds since the last user input; zero when no platform source is
/// available.
pub fn idle_seconds() -> (r: u64)
    ensures
        r == 0,
{
    0
}

} // verus!
