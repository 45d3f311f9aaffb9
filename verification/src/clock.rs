//! The system clock.

use std::time::SystemTime;
use vstd::prelude::*;

verus! {

/// `std::time::SystemTime`, a reading of the system clock.
#[verifier::external_type_specification]
#[verifier::external_body]
pub struct ExSystemTime(SystemTime);

/// `SystemTime::now` reads the clock; any reading may come back.
pub assume_specification[ SystemTime::now ]() -> SystemTime;

/// Calls `SystemTime::elapsed`: the time since `then` in seconds and nanoseconds, or, where the
/// clock has been set back behind `then`, the error as it is shown for debugging. Which of the two
/// comes back, and with what, is up to the clock.
#[verifier::external_body]
pub(crate) fn elapsed(then: &SystemTime) -> (r: Result<(u64, u32), String>)
    ensures
        r matches Ok(t) ==> t.1 < 1_000_000_000,
{
    match then.elapsed() {
        Ok(t) => Ok((t.as_secs(), t.subsec_nanos())),
        Err(e) => Err(format!("{:?}", e)),
    }
}

/// How `core::time::Duration` shows, for debugging, a time in seconds and nanoseconds.
pub uninterp spec fn duration_text(secs: u64, nanos: u32) -> Seq<char>;

/// Formats a `core::time::Duration` for debugging. The text depends on the duration alone. The
/// nanoseconds are less than a second, as `Duration` keeps them.
#[verifier::external_body]
pub(crate) fn debug_duration(secs: u64, nanos: u32) -> (r: String)
    requires
        nanos < 1_000_000_000,
    ensures
        r@ == duration_text(secs, nanos),
{
    format!("{:?}", core::time::Duration::new(secs, nanos))
}

} // verus!
