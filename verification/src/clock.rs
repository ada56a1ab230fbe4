//! The wall clock, read as milliseconds since the Unix epoch.

use vstd::prelude::*;

verus! {

/// Relies on std's `SystemTime`: the wall-clock time, in milliseconds
/// since the Unix epoch. A clock set before the epoch reads as zero.
/// Nothing can be promised of the value itself.
#[verifier::external_body]
pub fn get_time() -> u128 {
    std::time::SystemTime::now()
        .duration_since(std::time::SystemTime::UNIX_EPOCH)
        .map(|d| d.as_millis())
        .unwrap_or(0)
}

} // verus!
