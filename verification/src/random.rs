use vstd::prelude::*;

use crate::id::ChannelId;
use rand::seq::SliceRandom;

verus! {

#[verifier::external_type_specification]
#[verifier::external_body]
pub struct ExThreadRng(rand::rngs::ThreadRng);

/// `rand::thread_rng`: the random number generator of the calling thread,
/// seeded from the operating system on first use (which panics if the
/// system cannot provide a seed). Nothing is claimed of the generator.
#[verifier::external_body]
pub(crate) fn thread_rng() -> rand::rngs::ThreadRng {
    rand::thread_rng()
}

/// `SliceRandom::shuffle` on the identifiers: their order is permuted at
/// random. Claimed: the result holds the same identifiers, each as often
/// as before; which order comes out is left open.
#[verifier::external_body]
pub(crate) fn shuffle(ids: &mut Vec<ChannelId>, rng: &mut rand::rngs::ThreadRng)
    ensures
        final(ids)@.to_multiset() == old(ids)@.to_multiset(),
{
    ids.shuffle(rng)
}

} // verus!
