//! What the protocol code takes from its surroundings: I/O errors, the
//! clock and a source of random payloads. Nothing is stated of the clock's
//! readings or of the random bytes beyond their shape.
use rand::rngs::EntropyRng;
use rand::RngCore;
use std::time::Instant;
use vstd::prelude::*;

pub use std::io::Error as IoError;

verus! {

/// Declares `std::io::Error`, which the protocol code only carries along.
#[verifier::external_type_specification]
#[verifier::external_body]
pub struct ExIoError(std::io::Error);

/// Declares `std::time::Instant`, a reading of the monotonic clock.
#[verifier::external_type_specification]
#[verifier::external_body]
pub struct ExInstant(Instant);

/// Declares `rand::rngs::EntropyRng`, the operating system's entropy source.
#[verifier::external_type_specification]
#[verifier::external_body]
pub struct ExEntropyRng(EntropyRng);

/// `Instant::now`: the current reading of the clock. Nothing is stated of it.
#[verifier::external_body]
pub(crate) fn instant_now() -> Instant {
    Instant::now()
}

/// `<EntropyRng as Default>::default`: a source that opens the operating
/// system's entropy on first use.
#[verifier::external_body]
pub(crate) fn entropy_rng_default() -> EntropyRng {
    EntropyRng::default()
}

/// `RngCore::try_fill_bytes`: fills `buf` with random bytes and answers
/// `true`, or answers `false` when every entropy source of the machine
/// failed (the method reports that as an error and does not panic). The
/// buffer keeps its length; what bytes it holds afterwards is left unsaid.
#[verifier::external_body]
pub(crate) fn try_fill_bytes(rng: &mut EntropyRng, buf: &mut [u8]) -> (filled: bool)
    ensures
        final(buf)@.len() == old(buf)@.len(),
{
    rng.try_fill_bytes(buf).is_ok()
}

} // verus!
