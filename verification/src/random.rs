//! The source of random bytes for the `RND` instruction.
use vstd::prelude::*;

verus! {

/// A byte from `rand::random::<u8>()`, drawn from the thread-local generator that the
/// operating system seeds. Nothing is claimed of its value beyond being a `u8`; like
/// `rand::thread_rng`, it panics if the operating system cannot supply a seed.
#[verifier::external_body]
pub(crate) fn random_byte() -> (byte: u8) {
    rand::random::<u8>()
}

} // verus!
