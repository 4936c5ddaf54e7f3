//! The random source and the two draws that the model makes from it.
//!
//! Nothing in this file is proved: each contract states what the `rand`
//! crate does, for every outcome of the draw.

use rand::rngs::ThreadRng;
use rand::seq::SliceRandom;
use rand::Rng;
use vstd::prelude::*;

verus! {

/// `rand::rngs::ThreadRng`, the generator of the current thread. Nothing is
/// known of its state.
#[verifier::external_type_specification]
#[verifier::external_body]
pub struct ExThreadRng(rand::rngs::ThreadRng);

/// Sum of the weights of the first `count` entries of `table`, an entry
/// being a value and its weight.
pub open spec fn weight_sum(table: Seq<(u32, u32)>, count: nat) -> nat
    decreases count,
{
    if count == 0 {
        0
    } else {
        weight_sum(table, (count - 1) as nat) + table[count - 1].1 as nat
    }
}

/// `rand::thread_rng`: a handle to the generator of the current thread. It
/// panics when the operating system gives the generator no seed.
#[verifier::external_body]
pub(crate) fn thread_source() -> ThreadRng {
    rand::thread_rng()
}

/// `Rng::gen_range` on `0..bound`: the value drawn is below `bound`. An
/// empty range is left out, since `gen_range` panics on it.
#[verifier::external_body]
pub(crate) fn uniform_below(rng: &mut ThreadRng, bound: u32) -> (draw: u32)
    requires
        bound > 0,
    ensures
        draw < bound,
{
    rng.gen_range(0..bound)
}

/// `SliceRandom::choose_weighted` with each entry's second field as its
/// weight: the entry chosen is one of the table, and its weight is not zero;
/// none is chosen exactly when the table is empty or all its weights are
/// zero. Tables whose weights add up to more than `u32::MAX` are left out:
/// `choose_weighted` adds the weights up in a `u32`.
#[verifier::external_body]
pub(crate) fn choose_weighted_entry(table: &Vec<(u32, u32)>, rng: &mut ThreadRng) -> (choice:
    Option<(u32, u32)>)
    requires
        weight_sum(table@, table@.len()) <= u32::MAX,
    ensures
        match choice {
            Some(entry) => table@.contains(entry) && entry.1 > 0,
            None => weight_sum(table@, table@.len()) == 0,
        },
{
    table.choose_weighted(rng, |entry| entry.1).ok().copied()
}

} // verus!
