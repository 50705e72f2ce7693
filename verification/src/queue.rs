//! Bounded first-in-first-out buffers that drop their oldest item when full.

use vstd::prelude::*;
use std::collections::VecDeque;

verus! {

/// Number of items that a queue holds at most.
pub const QUEUE_CAPACITY: usize = 1000;

/// A queue of at most [`QUEUE_CAPACITY`] items, oldest first.
///
/// A push onto a full queue makes room by dropping the oldest item; it never
/// fails and never waits.
#[derive(Debug)]
pub struct BoundedQueue<T> {
    items: VecDeque<T>,
}

/// The items after `item` has been pushed onto a queue that holds `items`.
pub open spec fn pushed<T>(items: Seq<T>, item: T) -> Seq<T> {
    if items.len() >= QUEUE_CAPACITY {
        items.drop_first().push(item)
    } else {
        items.push(item)
    }
}

/// The items after a run of pushes, made in the order of `incoming`.
pub open spec fn pushed_all<T>(items: Seq<T>, incoming: Seq<T>) -> Seq<T>
    decreases incoming.len(),
{
    if incoming.len() == 0 {
        items
    } else {
        pushed(pushed_all(items, incoming.drop_last()), incoming.last())
    }
}

/// The last [`QUEUE_CAPACITY`] items of a sequence, or all of a shorter one.
pub open spec fn newest<T>(items: Seq<T>) -> Seq<T> {
    if items.len() > QUEUE_CAPACITY {
        items.subrange(items.len() - QUEUE_CAPACITY, items.len() as int)
    } else {
        items
    }
}

/// The first `count` items of a sequence in reverse order, newest first; all
/// of them where there are fewer.
pub open spec fn latest<T>(items: Seq<T>, count: int) -> Seq<T> {
    Seq::new(
        if count < items.len() {
            count as nat
        } else {
            items.len()
        },
        |i: int| items[items.len() - 1 - i],
    )
}

/// Pushes leave in a queue the newest items of all that it held and was
/// given, in the order in which they came.
pub proof fn lemma_pushes_keep_newest<T>(items: Seq<T>, incoming: Seq<T>)
    requires
        items.len() <= QUEUE_CAPACITY,
    ensures
        pushed_all(items, incoming) == newest(items + incoming),
        pushed_all(items, incoming).len() <= QUEUE_CAPACITY,
    decreases incoming.len(),
{
    if incoming.len() == 0 {
        assert(items + incoming =~= items);
    } else {
        let before = incoming.drop_last();
        lemma_pushes_keep_newest(items, before);
        assert((items + before).push(incoming.last()) =~= items + incoming);
        assert(pushed(newest(items + before), incoming.last()) =~= newest(items + incoming));
    }
}

impl<T> View for BoundedQueue<T> {
    type V = Seq<T>;

    /// The items of the queue, oldest first.
    closed spec fn view(&self) -> Seq<T> {
        self.items@
    }
}

impl<T> BoundedQueue<T> {
    /// The queue holds no more items than its capacity.
    pub open spec fn wf(&self) -> bool {
        self@.len() <= QUEUE_CAPACITY
    }

    /// An empty queue.
    pub fn new() -> (queue: Self)
        ensures
            queue@ == Seq::<T>::empty(),
            queue.wf(),
    {
        BoundedQueue { items: VecDeque::with_capacity(QUEUE_CAPACITY) }
    }

    /// Number of items in the queue.
    pub fn len(&self) -> (len: usize)
        ensures
            len == self@.len(),
    {
        self.items.len()
    }

    /// Appends an item; a full queue first drops its oldest item.
    pub fn push(&mut self, item: T)
        ensures
            final(self)@ == pushed(old(self)@, item),
            old(self).wf() ==> final(self).wf(),
            final(self)@.last() == item,
    {
        if self.items.len() >= QUEUE_CAPACITY {
            let _ = self.items.pop_front();
        }
        self.items.push_back(item);
    }

    /// Takes the oldest item out of the queue; `None` where the queue is empty.
    pub fn pop_front(&mut self) -> (item: Option<T>)
        ensures
            old(self)@.len() == 0 ==> item is None && final(self)@ == old(self)@,
            old(self)@.len() > 0 ==> item == Some(old(self)@[0]) && final(self)@ == old(
                self,
            )@.drop_first(),
            old(self).wf() ==> final(self).wf(),
    {
        self.items.pop_front()
    }

    /// The item at `index`, counted from the oldest.
    pub fn get(&self, index: usize) -> (item: &T)
        requires
            index < self@.len(),
        ensures
            *item == self@[index as int],
    {
        &self.items[index]
    }
}

} // verus!
