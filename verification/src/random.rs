//! The random source: the thread-local generator of the `rand` crate.
//!
//! Nothing here is proved. Each item states what the `rand` crate's own code
//! shows of the call, and the rest of the library is proved from that. The
//! thread-local generator reseeds itself from the system now and then, and a
//! draw panics if that fails: no contract can rule this out.

use rand::rngs::ThreadRng;
use rand::seq::SliceRandom;
use vstd::prelude::*;

verus! {

/// `rand::rngs::ThreadRng`, a handle to the generator of the current thread.
/// Its state is hidden: no contract speaks of it.
#[verifier::external_type_specification]
#[verifier::external_body]
pub struct ExThreadRng(ThreadRng);

/// `rand::thread_rng` hands out a handle to the generator of the current
/// thread, which it sets up on first use. Nothing is claimed of the handle.
/// The call panics where the system has no entropy to seed the generator
/// with.
pub assume_specification[ rand::thread_rng ]() -> ThreadRng
;

/// `Clone::clone` of `ThreadRng` gives a second handle to the same generator.
/// Nothing is claimed of the handle.
pub assume_specification[ <ThreadRng as Clone>::clone ](rng: &ThreadRng) -> ThreadRng
;

/// `SliceRandom::choose` on a slice of bytes: `None` for an empty slice, else
/// the element at an index that the generator draws below the slice's length.
/// Which element is up to the generator, so only membership is claimed.
#[verifier::external_body]
pub(crate) fn choose_byte(set: &Vec<u8>, rng: &mut ThreadRng) -> (picked: Option<u8>)
    ensures
        picked is None <==> set@.len() == 0,
        picked matches Some(byte) ==> set@.contains(byte),
{
    set.choose(rng).copied()
}

/// `SliceRandom::shuffle` reorders a slice in place by swapping pairs of its
/// elements, at indices that the generator draws inside the slice. Which
/// order comes out is up to the generator, so only that the elements are the
/// same, each as often as before, is claimed.
#[verifier::external_body]
pub(crate) fn shuffle_bytes(buffer: &mut Vec<u8>, rng: &mut ThreadRng)
    ensures
        final(buffer)@.to_multiset() == old(buffer)@.to_multiset(),
{
    buffer.shuffle(rng);
}

} // verus!
