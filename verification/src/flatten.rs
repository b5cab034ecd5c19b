//! A stream adapter that runs through the streams of a stream of streams.

use vstd::prelude::*;
use std::task::Poll;

verus! {

/// A stream of the items of the streams that an outer stream yields, one
/// inner stream after the other.
#[derive(Debug)]
#[must_use]
pub struct Flatten<St, In> {
    stream: St,
    next: Option<In>,
}

/// What one look at a poll result makes of a step of the flattened
/// stream.
#[verifier::reject_recursive_types(Item)]
pub enum Step<Item> {
    /// The step is over, with this result.
    Return(Poll<Option<Item>>),
    /// The step goes on: the inner stream is to be polled if there is one,
    /// the outer stream if there is none.
    Continue,
}

impl<St, In> Flatten<St, In> {
    /// The outer stream.
    pub closed spec fn stream(&self) -> St {
        self.stream
    }

    /// The inner stream that is being run through, if any.
    pub closed spec fn next(&self) -> Option<In> {
        self.next
    }

    /// Wraps a stream of streams; no inner stream is at hand yet.
    pub fn new(stream: St) -> (flatten: Flatten<St, In>)
        ensures
            flatten.stream() == stream,
            flatten.next() is None,
    {
        Flatten { stream, next: None }
    }

    /// Acquires a reference to the underlying stream that this combinator
    /// is pulling from.
    pub fn get_ref(&self) -> (stream: &St)
        ensures
            *stream == self.stream(),
    {
        &self.stream
    }

    /// Acquires a mutable reference to the underlying stream that this
    /// combinator is pulling from.
    pub fn get_mut(&mut self) -> (stream: &mut St)
        ensures
            *stream == old(self).stream(),
            final(self).stream() == *final(stream),
            final(self).next() == old(self).next(),
    {
        &mut self.stream
    }

    /// Consumes this combinator, returning the underlying stream.
    pub fn into_inner(self) -> (stream: St)
        ensures
            stream == self.stream(),
    {
        self.stream
    }

    /// The inner stream that is being run through, to be polled.
    pub fn next_mut(&mut self) -> (next: &mut Option<In>)
        ensures
            *next == old(self).next(),
            final(self).next() == *final(next),
            final(self).stream() == old(self).stream(),
    {
        &mut self.next
    }

    /// Whether the outer stream is to be polled: it is when no inner
    /// stream is at hand.
    pub fn needs_outer(&self) -> (b: bool)
        ensures
            b == (self.next() is None),
    {
        self.next.is_none()
    }

    /// Whether the flattened stream has ended for good, given whether the
    /// outer stream has.
    pub fn is_terminated(&self, outer_terminated: bool) -> (b: bool)
        ensures
            b == (self.next() is None && outer_terminated),
    {
        self.next.is_none() && outer_terminated
    }

    /// Takes what the outer stream gave. A new inner stream is kept and
    /// the step goes on with it; the end of the outer stream is the end
    /// of the flattened stream; while the outer stream is pending, so is
    /// the flattened stream.
    pub fn on_outer<Item>(&mut self, polled: Poll<Option<In>>) -> (step: Step<Item>)
        requires
            old(self).next() is None,
        ensures
            match polled {
                Poll::Ready(Some(inner)) => step is Continue && final(self).next() == Some(inner),
                Poll::Ready(None) => step == Step::Return(Poll::<Option<Item>>::Ready(None))
                    && final(self).next() is None,
                Poll::Pending => step == Step::Return(Poll::<Option<Item>>::Pending) && final(self).next() is None,
            },
            final(self).stream() == old(self).stream(),
    {
        match polled {
            Poll::Ready(Some(inner)) => {
                self.next = Some(inner);
                Step::Continue
            },
            Poll::Ready(None) => Step::Return(Poll::Ready(None)),
            Poll::Pending => Step::Return(Poll::Pending),
        }
    }

    /// Takes what the inner stream gave. An item is the result of the
    /// step; at the end of the inner stream it is dropped and the step
    /// goes on with the outer stream; while the inner stream is pending,
    /// so is the flattened stream.
    pub fn on_inner<Item>(&mut self, polled: Poll<Option<Item>>) -> (step: Step<Item>)
        ensures
            match polled {
                Poll::Ready(Some(item)) => step == Step::Return(Poll::Ready(Some(item)))
                    && final(self).next() == old(self).next(),
                Poll::Ready(None) => step is Continue && final(self).next() is None,
                Poll::Pending => step == Step::Return(Poll::<Option<Item>>::Pending) && final(self).next() == old(self).next(),
            },
            final(self).stream() == old(self).stream(),
    {
        match polled {
            Poll::Ready(Some(item)) => Step::Return(Poll::Ready(Some(item))),
            Poll::Ready(None) => {
                self.next = None;
                Step::Continue
            },
            Poll::Pending => Step::Return(Poll::Pending),
        }
    }
}

} // verus!
