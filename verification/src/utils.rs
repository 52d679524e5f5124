//! Random draws over collections: picking one element, and shuffling a
//! vector before cutting it in two halves.

use rand::seq::IndexedRandom;
use rand::seq::SliceRandom;
use vstd::pervasive::cloned;
use vstd::pervasive::unreached;
use vstd::prelude::*;

verus! {

/// `IndexedRandom::choose` of `rand` on a slice, drawing from the thread's
/// generator: `None` for an empty slice, otherwise a reference to one of the
/// slice's elements. Which element comes back is left open.
#[verifier::external_body]
fn choose_ref<T>(items: &Vec<T>) -> (chosen: Option<&T>)
    ensures
        match chosen {
            Some(item) => exists|i: int| 0 <= i < items.len() && #[trigger] items@[i] == *item,
            None => items.len() == 0,
        },
{
    items.as_slice().choose(&mut rand::rng())
}

/// `SliceRandom::shuffle` of `rand` on a slice, drawing from the thread's
/// generator: the slice is reordered by swaps only, so it holds the same
/// elements as before, each as often as before. The order is left open.
#[verifier::external_body]
fn shuffle_in_place<T>(items: &mut Vec<T>)
    ensures
        final(items)@.to_multiset() == old(items)@.to_multiset(),
{
    items.as_mut_slice().shuffle(&mut rand::rng());
}

/// Picks one element of a non-empty vector at random and returns a clone of
/// it.
pub fn rand_choose<T: Clone>(vec: Vec<T>) -> (chosen: T)
    requires
        vec.len() > 0,
    ensures
        exists|i: int| 0 <= i < vec.len() && cloned(#[trigger] vec@[i], chosen),
{
    match choose_ref(&vec) {
        Some(item) => item.clone(),
        None => unreached(),
    }
}

/// Draws a boolean at random, by picking one of `true` and `false`.
pub fn rand_bool() -> bool {
    let mut sides: Vec<bool> = Vec::new();
    sides.push(true);
    sides.push(false);
    rand_choose(sides)
}

/// Shuffles a vector and cuts it in two: the first half holds
/// `vector.len() / 2` elements, the second half the rest, so an odd element
/// goes to the second half. Together the halves hold exactly the elements of
/// the input, each as often as the input did.
pub fn suffle_and_split<T: Clone>(vector: Vec<T>) -> (halves: (Vec<T>, Vec<T>))
    ensures
        halves.0.len() == vector.len() / 2,
        halves.0.len() + halves.1.len() == vector.len(),
        (halves.0@ + halves.1@).to_multiset() == vector@.to_multiset(),
{
    let mut shuffled = vector;
    shuffle_in_place(&mut shuffled);
    let ghost whole = shuffled@;
    proof {
        whole.to_multiset_ensures();
        vector@.to_multiset_ensures();
    }
    let half: usize = shuffled.len() / 2;
    let second_half = shuffled.split_off(half);
    assert(shuffled@ + second_half@ =~= whole);
    (shuffled, second_half)
}

} // verus!
