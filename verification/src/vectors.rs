//! Vectors whose items cannot be copied.

use vstd::prelude::*;

verus! {

/// The items of a vector in the opposite order.
pub fn reversed<T>(items: Vec<T>) -> (back: Vec<T>)
    ensures
        back@.len() == items@.len(),
        forall|i: int| 0 <= i < back@.len() ==> back@[i] == items@[items@.len() - 1 - i],
{
    let mut items = items;
    let ghost all = items@;
    let mut back: Vec<T> = Vec::new();
    while items.len() > 0
        invariant
            items@.len() + back@.len() == all.len(),
            forall|i: int| 0 <= i < items@.len() ==> items@[i] == all[i],
            forall|i: int| 0 <= i < back@.len() ==> back@[i] == all[all.len() - 1 - i],
        decreases items@.len(),
    {
        let item = items.pop().unwrap();
        back.push(item);
    }
    back
}

} // verus!
