use rand::Rng;
use vstd::prelude::*;

verus! {

/// Draws one byte from the `rand` crate: `rand::thread_rng()` and, on the
/// generator it hands out, `Rng::gen::<u8>()`.
///
/// The generator is seeded by the operating system and differs from thread
/// to thread and from run to run, so nothing is claimed of the byte. (The
/// crate panics if the operating system cannot seed the generator.)
#[verifier::external_body]
pub(crate) fn random_byte() -> (byte: u8) {
    rand::thread_rng().gen::<u8>()
}

} // verus!
