//! Reading the system clock.
use vstd::prelude::*;

verus! {

/// The Unix time in whole seconds (`SystemTime::now` since `UNIX_EPOCH`),
/// or `None` when the clock reads a time before the epoch.
#[verifier::external_body]
pub(crate) fn system_now_seconds() -> Option<u64> {
    match std::time::SystemTime::now().duration_since(std::time::UNIX_EPOCH) {
        Ok(d) => Some(d.as_secs()),
        Err(_) => None,
    }
}

/// The Unix time in whole seconds as a signed number, or `None` when the
/// clock reads before the epoch or beyond what an `i64` holds.
pub(crate) fn unix_seconds() -> (r: Option<i64>)
    ensures
        r matches Some(t) ==> t >= 0,
{
    match system_now_seconds() {
        Some(t) => {
            if t <= i64::MAX as u64 {
                Some(t as i64)
            } else {
                None
            }
        },
        None => None,
    }
}

} // verus!
