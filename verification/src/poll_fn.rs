//! A future made of a function.

use vstd::prelude::*;
use std::task::Poll;

verus! {

/// A future which adapts a function returning `Poll`.
///
/// Created by the `poll_fn` function.
#[derive(Debug)]
#[must_use]
pub struct PollFn<F> {
    inner: F,
}

/// Creates a new future wrapping around a function returning `Poll`.
///
/// Polling the returned future delegates to the wrapped function.
pub fn poll_fn<F>(f: F) -> (future: PollFn<F>)
    ensures
        future.inner() == f,
{
    PollFn { inner: f }
}

impl<F> PollFn<F> {
    /// The wrapped function.
    pub closed spec fn inner(&self) -> F {
        self.inner
    }

    /// One step of the future: the wrapped function is called with the
    /// context `cx`, and what it returns is the result.
    pub fn poll<C, T>(&mut self, cx: C) -> (r: Poll<T>) where F: FnMut(C) -> Poll<T>
        requires
            old(self).inner().requires((cx,)),
        ensures
            old(self).inner().ensures((cx,), r),
    {
        (self.inner)(cx)
    }
}

} // verus!
