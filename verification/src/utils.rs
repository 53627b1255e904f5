//! Helpers shared by the other modules' callers.

use vstd::prelude::*;
use vstd::std_specs::cmp::PartialEqSpec;

verus! {

/// Whether two vectors have the same length and equal items at every place.
pub fn vectors_equivalent<T: PartialEq>(vec1: Vec<T>, vec2: Vec<T>) -> (r: bool)
    ensures
        T::obeys_eq_spec() ==> r == (vec1.len() == vec2.len() && forall|i: int|
            0 <= i < vec1.len() ==> (#[trigger] vec1[i]).eq_spec(&vec2[i])),
{
    if vec1.len() != vec2.len() {
        return false;
    }
    let mut i: usize = 0;
    while i < vec1.len()
        invariant
            i <= vec1.len(),
            vec1.len() == vec2.len(),
            T::obeys_eq_spec() ==> forall|k: int|
                0 <= k < i ==> (#[trigger] vec1[k]).eq_spec(&vec2[k]),
        decreases vec1.len() - i,
    {
        if vec1[i] != vec2[i] {
            return false;
        }
        i += 1;
    }
    true
}

} // verus!
