//! Bounded channel buffer with try-send semantics: a send on a full buffer is
//! dropped silently. This is the declared backpressure policy of the service;
//! every channel it allocates has this shape.

use vstd::prelude::*;

verus! {

/// A bounded FIFO queue. Pushing onto a full queue drops the element.
#[derive(Debug)]
pub struct BoundedQueue<T> {
    /// Queued elements, oldest first.
    pub items: Vec<T>,
    /// Capacity; `items` never grows beyond it.
    pub cap: usize,
}

impl<T> BoundedQueue<T> {
    /// The queue never holds more than its capacity.
    pub open spec fn wf(self) -> bool {
        self.items@.len() <= self.cap
    }

    /// An empty queue of the given capacity.
    pub fn new(cap: usize) -> (q: Self)
        ensures
            q.wf(),
            q.items@ == Seq::<T>::empty(),
            q.cap == cap,
    {
        BoundedQueue { items: Vec::new(), cap }
    }

    /// Number of queued elements.
    pub fn len(&self) -> (n: usize)
        ensures
            n == self.items@.len(),
    {
        self.items.len()
    }

    /// Whether nothing is queued.
    pub fn is_empty(&self) -> (r: bool)
        ensures
            r == (self.items@.len() == 0),
    {
        self.items.len() == 0
    }

    /// Appends `t` if there is room; on a full queue the element is dropped
    /// and `false` returned.
    pub fn try_send(&mut self, t: T) -> (accepted: bool)
        requires
            old(self).wf(),
        ensures
            final(self).wf(),
            final(self).cap == old(self).cap,
            accepted == (old(self).items@.len() < old(self).cap),
            accepted ==> final(self).items@ == old(self).items@.push(t),
            !accepted ==> final(self).items@ == old(self).items@,
    {
        if self.items.len() < self.cap {
            self.items.push(t);
            true
        } else {
            false
        }
    }

    /// Removes and returns the oldest element, if any.
    pub fn pop_front(&mut self) -> (r: Option<T>)
        requires
            old(self).wf(),
        ensures
            final(self).wf(),
            final(self).cap == old(self).cap,
            old(self).items@.len() == 0 ==> (r is None && final(self).items@ == old(
                self,
            ).items@),
            old(self).items@.len() > 0 ==> (r matches Some(t) && t == old(self).items@[0]
                && final(self).items@ == old(self).items@.drop_first()),
    {
        if self.items.len() == 0 {
            None
        } else {
            let t = self.items.remove(0);
            proof {
                assert(self.items@ =~= old(self).items@.drop_first());
            }
            Some(t)
        }
    }
}

} // verus!
