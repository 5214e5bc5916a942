use vstd::prelude::*;
use std::time::SystemTime;
use std::time::UNIX_EPOCH;

verus! {

/// Relies on std's `SystemTime::now`: the wall clock, read once and
/// converted to whole seconds since the Unix epoch (0 if the clock
/// stands before the epoch). Nothing is promised of the value.
#[verifier::external_body]
pub(crate) fn unix_now_secs() -> u64 {
    match SystemTime::now().duration_since(UNIX_EPOCH) {
        Ok(d) => d.as_secs(),
        Err(_) => 0,
    }
}

/// The UTC clock, read through `now`.
pub struct Utc {
}

/// A moment in time, reported as a Unix timestamp.
pub struct DateTime {
    pub unix_secs: u64,
}

impl Utc {
    /// Reads the wall clock.
    pub fn now() -> DateTime {
        DateTime { unix_secs: unix_now_secs() }
    }
}

impl DateTime {
    /// Whole seconds since the Unix epoch, saturated to `i64::MAX`.
    pub fn timestamp(&self) -> (r: i64)
        ensures
            r >= 0,
            self.unix_secs <= i64::MAX ==> r == self.unix_secs,
    {
        if self.unix_secs > 0x7fff_ffff_ffff_ffffu64 {
            0x7fff_ffff_ffff_ffffi64
        } else {
            self.unix_secs as i64
        }
    }
}

} // verus!
