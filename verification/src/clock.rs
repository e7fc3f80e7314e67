//! The moment at which a reading was taken.

use vstd::prelude::*;

verus! {

/// A moment in time, counted from the start of 1970 in UTC.
#[derive(Clone, Copy, Debug, PartialEq, Eq, Structural)]
pub struct CaptureTime {
    /// Whole seconds since the start of 1970.
    pub unix_seconds: i64,
    /// Nanoseconds since the last whole second.
    pub subsec_nanos: u32,
}

/// The present moment by `chrono::Local::now`, as the seconds and
/// nanoseconds that `DateTime::timestamp` and
/// `DateTime::timestamp_subsec_nanos` give for it. Nothing is claimed of the
/// value: it is whatever the system clock says. `chrono` stops the program
/// if that clock is set before 1970.
#[verifier::external_body]
pub(crate) fn local_now() -> (now: CaptureTime) {
    let now = chrono::Local::now();
    CaptureTime { unix_seconds: now.timestamp(), subsec_nanos: now.timestamp_subsec_nanos() }
}

} // verus!
