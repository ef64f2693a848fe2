//! Small vector constructors shared by the read engine.

use vstd::prelude::*;

verus! {

/// A vector of `size` copies of `item`, ready to be filled by a positioned
/// read from the backing store.
pub fn sized_vec<T: Clone>(size: usize, item: T) -> (v: Vec<T>)
    ensures
        v@.len() == size,
        forall|i: int| 0 <= i < size ==> cloned(item, #[trigger] v@[i]),
{
    let mut v: Vec<T> = Vec::with_capacity(size);
    while v.len() < size
        invariant
            v@.len() <= size,
            forall|i: int| 0 <= i < v@.len() ==> cloned(item, #[trigger] v@[i]),
        decreases size - v@.len(),
    {
        let next = item.clone();
        v.push(next);
    }
    v
}

/// An empty vector, grown one item at a time as the source is consumed.
pub fn no_capacity_vec<T>() -> (v: Vec<T>)
    ensures
        v@ == Seq::<T>::empty(),
{
    Vec::new()
}

} // verus!
