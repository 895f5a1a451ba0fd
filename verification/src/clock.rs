//! The wall clock, as nanoseconds since the Unix epoch.

use std::time::{SystemTime, UNIX_EPOCH};
use vstd::prelude::*;

verus! {

/// `SystemTime::now`: the current wall-clock time, given as the nanoseconds
/// that have passed since the Unix epoch (zero for a clock set before it).
/// Nothing is claimed of the value: two readings may even go backwards.
#[verifier::external_body]
pub(crate) fn now() -> u128 {
    match SystemTime::now().duration_since(UNIX_EPOCH) {
        Ok(since) => since.as_nanos(),
        Err(_) => 0,
    }
}

} // verus!
