//! A stream made of a seed and a function that makes a future of it.

use vstd::prelude::*;
use std::task::Poll;

verus! {

/// A stream which creates futures, polls them and returns their result.
///
/// The function is called with the state; the future that it returns
/// completes with an item and the next state, or with nothing at the end
/// of the stream.
#[derive(Debug)]
#[must_use]
pub struct Unfold<T, F, Fut> {
    f: F,
    state: Option<T>,
    fut: Option<Fut>,
}

/// Creates a stream from a seed and a function returning a future.
///
/// `unfold` calls the function with the seed, then waits for the returned
/// future to complete with `(a, b)`. It then yields the value `a`, and
/// uses `b` as the next state. When the future completes with nothing,
/// the stream ends.
pub fn unfold<T, F, Fut>(init: T, f: F) -> (stream: Unfold<T, F, Fut>)
    ensures
        stream.f() == f,
        stream.state() == Some(init),
        stream.fut() is None,
{
    Unfold { f, state: Some(init), fut: None }
}

impl<T, F, Fut> Unfold<T, F, Fut> {
    /// The function that makes a future of a state.
    pub closed spec fn f(&self) -> F {
        self.f
    }

    /// The state from which the next future is made, if none is under way.
    pub closed spec fn state(&self) -> Option<T> {
        self.state
    }

    /// The future that is under way, if any.
    pub closed spec fn fut(&self) -> Option<Fut> {
        self.fut
    }

    /// Whether a poll has something to work on: a state to make a future
    /// of, or a future under way. A stream that has ended has neither.
    pub fn can_poll(&self) -> (b: bool)
        ensures
            b == (self.state() is Some || self.fut() is Some),
    {
        self.state.is_some() || self.fut.is_some()
    }

    /// First half of a step: if a state is at hand, the function makes a
    /// future of it, which is then under way.
    pub fn start(&mut self) where F: FnMut(T) -> Fut
        requires
            old(self).state() matches Some(t) ==> old(self).f().requires((t,)),
        ensures
            final(self).state() is None,
            old(self).state() matches Some(t) ==> (final(self).fut() matches Some(fut) && old(
                self,
            ).f().ensures((t,), fut)),
            old(self).state() is None ==> final(self).fut() == old(self).fut(),
    {
        if let Some(state) = self.state.take() {
            let fut = (self.f)(state);
            self.fut = Some(fut);
        }
    }

    /// The future under way, to be polled.
    pub fn future_mut(&mut self) -> (fut: &mut Option<Fut>)
        ensures
            *fut == old(self).fut(),
            final(self).fut() == *final(fut),
            final(self).state() == old(self).state(),
            final(self).f() == old(self).f(),
    {
        &mut self.fut
    }

    /// Second half of a step: `step` is what the future under way gave.
    /// While it is pending, nothing changes. When it has completed, it is
    /// dropped; an item is yielded and the state that came with it is kept
    /// for the next step, or the stream ends.
    pub fn finish<It>(&mut self, step: Poll<Option<(It, T)>>) -> (r: Poll<Option<It>>)
        ensures
            match step {
                Poll::Pending => r is Pending && final(self).fut() == old(self).fut()
                    && final(self).state() == old(self).state(),
                Poll::Ready(Some((item, next))) => r == Poll::Ready(Some(item)) && final(self).fut() is None && final(self).state() == Some(next),
                Poll::Ready(None) => r == Poll::<Option<It>>::Ready(None) && final(self).fut()
                    is None && final(self).state() == old(self).state(),
            },
            final(self).f() == old(self).f(),
    {
        match step {
            Poll::Pending => Poll::Pending,
            Poll::Ready(done) => {
                self.fut = None;
                match done {
                    Some((item, next_state)) => {
                        self.state = Some(next_state);
                        Poll::Ready(Some(item))
                    },
                    None => Poll::Ready(None),
                }
            },
        }
    }
}

} // verus!
