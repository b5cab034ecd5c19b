//! The first-in, first-out queue that carries the messages of a channel
//! and the handles of its waiting senders.

use vstd::prelude::*;
use std::collections::VecDeque;

verus! {

/// What one attempt to take an entry from a queue gives.
#[derive(Debug)]
pub enum PopResult<T> {
    /// The oldest entry.
    Data(T),
    /// The queue holds nothing.
    Empty,
    /// A push is under way and its entry cannot be read yet. A queue that
    /// one task holds at a time never reports this; consumers still treat
    /// it, so that they can be moved to a queue that does.
    Inconsistent,
}

/// An unbounded queue: entries leave in the order in which they came.
#[derive(Debug)]
pub struct Queue<T> {
    items: VecDeque<T>,
}

impl<T> View for Queue<T> {
    type V = Seq<T>;

    /// The entries, oldest first.
    closed spec fn view(&self) -> Seq<T> {
        self.items@
    }
}

impl<T> Queue<T> {
    /// An empty queue.
    pub fn new() -> (q: Self)
        ensures
            q@ == Seq::<T>::empty(),
    {
        Queue { items: VecDeque::new() }
    }

    /// Appends an entry behind all others.
    pub fn push(&mut self, t: T)
        ensures
            final(self)@ == old(self)@.push(t),
    {
        self.items.push_back(t);
    }

    /// Takes the oldest entry, if there is one.
    pub fn pop(&mut self) -> (r: PopResult<T>)
        ensures
            old(self)@.len() == 0 ==> r is Empty && final(self)@ == old(self)@,
            old(self)@.len() > 0 ==> r == PopResult::Data(old(self)@[0]) && final(self)@ == old(
                self,
            )@.drop_first(),
    {
        match self.items.pop_front() {
            Some(t) => PopResult::Data(t),
            None => PopResult::Empty,
        }
    }

    /// Number of entries.
    pub fn len(&self) -> (n: usize)
        ensures
            n == self@.len(),
    {
        self.items.len()
    }

    /// Whether the queue holds nothing.
    pub fn is_empty(&self) -> (b: bool)
        ensures
            b == (self@.len() == 0),
    {
        self.items.len() == 0
    }
}

} // verus!
