//! Walking a vector from its front while taking its items out.

use vstd::prelude::*;

verus! {

/// The items of `items` in the opposite order, so that popping from the
/// result yields them first to last.
pub fn reversed<A>(items: Vec<A>) -> (stack: Vec<A>)
    ensures
        stack@ == items@.reverse(),
{
    let mut items = items;
    let mut stack: Vec<A> = Vec::new();
    let ghost all = items@;
    while items.len() > 0
        invariant
            items@.len() + stack@.len() == all.len(),
            items@ == all.subrange(0, items@.len() as int),
            forall|i: int| 0 <= i < stack@.len() ==> #[trigger] stack@[i] == all[all.len() - 1 - i],
        decreases items@.len(),
    {
        let item = items.pop().unwrap();
        stack.push(item);
        assert(items@ =~= all.subrange(0, items@.len() as int));
    }
    assert(stack@ =~= all.reverse());
    stack
}

} // verus!
