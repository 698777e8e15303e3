//! The wall clock.
use vstd::prelude::*;

verus! {

/// `SystemTime::now().duration_since(UNIX_EPOCH)`: the current time in
/// nanoseconds since the Unix epoch, negative for a time before it (the
/// `SystemTimeError` carries how far before). The time depends on the
/// machine's clock, so nothing is promised of the value.
#[verifier::external_body]
pub(crate) fn now_nanos() -> (r: i128) {
    match std::time::SystemTime::now().duration_since(std::time::UNIX_EPOCH) {
        Ok(d) => d.as_nanos() as i128,
        Err(e) => -(e.duration().as_nanos() as i128),
    }
}

} // verus!
