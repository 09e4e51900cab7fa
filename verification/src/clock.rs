//! The clocks. Each reading may be anything, so every function that depends on one has a form that
//! takes the reading as an argument.

use vstd::prelude::*;

verus! {

/// `std::time::SystemTime`, a reading of the clock of the machine.
#[verifier::external_type_specification]
#[verifier::external_body]
pub struct ExSystemTime(std::time::SystemTime);

/// `std::time::SystemTime::now`. Nothing is claimed of the reading.
#[verifier::external_body]
fn system_now() -> (r: std::time::SystemTime) {
    std::time::SystemTime::now()
}

/// `std::time::SystemTime::duration_since` the Unix epoch, in nanoseconds; `None` where the clock
/// stands before it. Nothing is claimed of the reading.
#[verifier::external_body]
fn nanos_since_epoch(t: &std::time::SystemTime) -> (r: Option<u128>) {
    match t.duration_since(std::time::UNIX_EPOCH) {
        Ok(d) => Some(d.as_nanos()),
        Err(_) => None,
    }
}

/// Nanoseconds since the epoch as milliseconds; zero before the epoch.
pub fn millis_of(nanos: Option<u128>) -> (r: u64)
    ensures
        r == match nanos {
            Some(n) => (n / 1_000_000) % 0x1_0000_0000_0000_0000,
            None => 0,
        },
{
    match nanos {
        Some(n) => {
            let m: u128 = n / 1_000_000;
            assert(m as u64 == m % 0x1_0000_0000_0000_0000) by (bit_vector);
            #[verifier::truncate]
            (m as u64)
        },
        None => 0,
    }
}

/// The time in milliseconds since the Unix epoch; zero where the clock stands before it.
pub fn current_millis() -> (r: u64) {
    millis_of(nanos_since_epoch(&system_now()))
}

/// `std::time::Instant`, a reading of a clock that never goes back.
#[verifier::external_type_specification]
#[verifier::external_body]
pub struct ExInstant(std::time::Instant);

/// `std::time::Instant::now`. Nothing is claimed of the reading.
#[verifier::external_body]
pub(crate) fn instant_now() -> (r: std::time::Instant) {
    std::time::Instant::now()
}

/// `std::time::Instant::elapsed`, in nanoseconds. Nothing is claimed of the reading.
#[verifier::external_body]
pub(crate) fn nanos_since(start: &std::time::Instant) -> (r: u128) {
    start.elapsed().as_nanos()
}

} // verus!
