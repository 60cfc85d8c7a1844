//! Cryptographic proofs of object state.
pub mod types;
pub mod engine;
pub mod merkle;

use vstd::prelude::*;
use crate::proofs::types::SlotNumber;

verus! {

/// Seconds since the Unix epoch by the system clock (zero for a clock set
/// before the epoch), through `std::time::SystemTime::elapsed`. Nothing is
/// promised of the value: it is the time.
#[verifier::external_body]
pub(crate) fn unix_time_secs() -> u64 {
    match std::time::UNIX_EPOCH.elapsed() {
        Ok(d) => d.as_secs(),
        Err(_) => 0,
    }
}

/// The current slot number: the seconds elapsed since the Unix epoch.
pub fn current_slot() -> SlotNumber {
    unix_time_secs()
}

} // verus!
