//! Time and randomness, the two things the protocol takes from the machine.

use rand::RngCore;
use rand::rngs::StdRng;
use rand::SeedableRng;
use std::time::Duration;
use std::time::SystemTime;
use std::time::SystemTimeError;
use vstd::prelude::*;

verus! {

#[verifier::external_type_specification]
#[verifier::external_body]
pub struct ExStdRng(StdRng);

#[verifier::external_type_specification]
#[verifier::external_body]
pub struct ExSystemTime(SystemTime);

#[verifier::external_type_specification]
#[verifier::external_body]
pub struct ExSystemTimeError(SystemTimeError);

/// `SystemTime::now`: the reading of the system clock. Nothing is known of it.
#[verifier::external_body]
fn system_time_now() -> SystemTime {
    SystemTime::now()
}

/// `SystemTime::duration_since` against `UNIX_EPOCH`: the time elapsed since
/// the epoch, or an error when the clock reads earlier than the epoch.
#[verifier::external_body]
fn duration_since_epoch(time: &SystemTime) -> Result<Duration, SystemTimeError> {
    time.duration_since(SystemTime::UNIX_EPOCH)
}

/// `Duration::as_secs`: the whole seconds of a duration.
#[verifier::external_body]
fn duration_as_secs(duration: &Duration) -> u64 {
    duration.as_secs()
}

/// Seconds since the Unix epoch, and 0 when the clock reads earlier than that.
pub fn get_timestamp() -> u64 {
    let now = system_time_now();
    match duration_since_epoch(&now) {
        Ok(elapsed) => duration_as_secs(&elapsed),
        Err(_) => 0,
    }
}

/// `StdRng::from_entropy`: a generator seeded by the operating system. The
/// call panics when the system has no entropy to give.
#[verifier::external_body]
pub fn get_rng() -> StdRng {
    StdRng::from_entropy()
}

/// `RngCore::fill_bytes` of `StdRng` overwrites the buffer with random bytes
/// and keeps its length.
pub assume_specification[ <StdRng as RngCore>::fill_bytes ](rng: &mut StdRng, dest: &mut [u8])
    ensures
        final(dest)@.len() == old(dest)@.len(),
;

/// Overwrites `bytes` with bytes from a freshly seeded generator.
pub fn rng_fill_bytes(bytes: &mut [u8])
    ensures
        final(bytes)@.len() == old(bytes)@.len(),
{
    let mut rng = get_rng();
    rng.fill_bytes(bytes);
}

} // verus!
