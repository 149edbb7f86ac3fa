//! Queues that hand their items out in the order in which they came.

use std::collections::VecDeque;
use vstd::prelude::*;

verus! {

/// Moves the items of a vector into a queue, in their order.
pub fn into_deque<T>(items: Vec<T>) -> (queue: VecDeque<T>)
    ensures
        queue@ == items@,
{
    let mut items = items;
    let ghost all = items@;
    let mut queue: VecDeque<T> = VecDeque::new();
    while items.len() > 0
        invariant
            items@.len() <= all.len(),
            items@ == all.take(items@.len() as int),
            queue@ == all.skip(items@.len() as int),
        decreases items@.len(),
    {
        match items.pop() {
            Some(item) => {
                queue.push_front(item);
                assert(items@ == all.take(items@.len() as int));
                assert(queue@ == all.skip(items@.len() as int));
            },
            None => {},
        }
    }
    assert(all.skip(0) == all);
    queue
}

} // verus!
