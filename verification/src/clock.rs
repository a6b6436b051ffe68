//! The one place the library reads the system clock.

use vstd::prelude::*;

verus! {

/// Relies on chrono::Utc::now and DateTime::timestamp_nanos_opt: nanoseconds
/// since the Unix epoch as the system clock reports them, or 0 where the
/// instant does not fit chrono's nanosecond range. The value depends on the
/// clock, so nothing is assumed of it; callers state what holds for every
/// value.
#[verifier::external_body]
pub(crate) fn now_nanos() -> u64 {
    chrono::Utc::now().timestamp_nanos_opt().unwrap_or(0) as u64
}

} // verus!
