//! The source of chance: the `rand` crate's thread-local generator.

use rand::rngs::ThreadRng;
use rand::seq::SliceRandom;
use vstd::prelude::*;

verus! {

/// `rand::rngs::ThreadRng`, a handle to the generator of the current thread.
/// Nothing is known of what it holds.
#[verifier::external_type_specification]
#[verifier::external_body]
pub struct ExThreadRng(ThreadRng);

/// `rand::thread_rng` hands out the handle; nothing is claimed of it. The
/// call panics only where the system cannot seed the generator.
pub assume_specification[ rand::thread_rng ]() -> (rng: ThreadRng)
;

/// `rand::seq::SliceRandom::choose` on the slice of `items`: nothing from an
/// empty slice, otherwise a reference to one of its elements. Which element
/// is up to the generator, so two calls may differ.
#[verifier::external_body]
pub(crate) fn pick_one<'a, T>(items: &'a Vec<T>, rng: &mut ThreadRng) -> (picked: Option<&'a T>)
    ensures
        picked is None <==> items@.len() == 0,
        picked is Some ==> exists|i: int| 0 <= i < items@.len() && picked == Some(&items@[i]),
{
    items.as_slice().choose(rng)
}

} // verus!
