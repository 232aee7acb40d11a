use vstd::prelude::*;
use std::time::{Instant, SystemTime, UNIX_EPOCH};

verus! {

#[verifier::external_type_specification]
#[verifier::external_body]
pub struct ExInstant(Instant);

/// Whole milliseconds elapsed since `start`, by `Instant::elapsed`. Nothing is promised of the
/// value: it depends on the time at which it is read.
#[verifier::external_body]
pub fn elapsed_millis(start: &Instant) -> u128 {
    start.elapsed().as_millis()
}

/// Whole seconds since the Unix epoch by `SystemTime::now`, or 0 when the system clock reads
/// an earlier time. Nothing is promised of the value: it is the time at which it is read.
#[verifier::external_body]
pub fn unix_time_secs() -> u64 {
    match SystemTime::now().duration_since(UNIX_EPOCH) {
        Ok(elapsed) => elapsed.as_secs(),
        Err(_) => 0,
    }
}

} // verus!
