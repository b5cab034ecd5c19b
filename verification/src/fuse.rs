//! A stream adapter that remembers the end of its stream.

use vstd::prelude::*;
use std::task::Poll;

verus! {

/// A stream that, once its underlying stream has ended, ends for good:
/// the underlying stream is not polled again.
#[derive(Debug)]
#[must_use]
pub struct Fuse<St> {
    stream: St,
    done: bool,
}

impl<St> Fuse<St> {
    /// The underlying stream.
    pub closed spec fn stream(&self) -> St {
        self.stream
    }

    /// Whether the underlying stream has ended.
    pub closed spec fn done(&self) -> bool {
        self.done
    }

    /// What a poll of the fused stream gives, when a poll of the
    /// underlying stream gives `item`. The underlying stream is polled
    /// only if it has not ended.
    pub open spec fn spec_poll_next<Item>(self, item: Poll<Option<Item>>) -> Poll<Option<Item>> {
        if self.done() {
            Poll::Ready(None)
        } else {
            item
        }
    }

    /// Wraps a stream that has not ended.
    pub fn new(stream: St) -> (fuse: Fuse<St>)
        ensures
            fuse.stream() == stream,
            !fuse.done(),
    {
        Fuse { stream, done: false }
    }

    /// Returns whether the underlying stream has finished or not.
    ///
    /// If this method returns `true`, then all future calls to poll are
    /// guaranteed to return `None`. If this returns `false`, then the
    /// underlying stream is still in use.
    pub fn is_done(&self) -> (done: bool)
        ensures
            done == self.done(),
    {
        self.done
    }

    /// Acquires a reference to the underlying stream that this combinator
    /// is pulling from.
    pub fn get_ref(&self) -> (stream: &St)
        ensures
            *stream == self.stream(),
    {
        &self.stream
    }

    /// Acquires a mutable reference to the underlying stream that this
    /// combinator is pulling from.
    ///
    /// Note that care must be taken to avoid tampering with the state of
    /// the stream which may otherwise confuse this combinator.
    pub fn get_mut(&mut self) -> (stream: &mut St)
        ensures
            *stream == old(self).stream(),
            final(self).stream() == *final(stream),
            final(self).done() == old(self).done(),
    {
        &mut self.stream
    }

    /// Consumes this combinator, returning the underlying stream.
    pub fn into_inner(self) -> (stream: St)
        ensures
            stream == self.stream(),
    {
        self.stream
    }

    /// One step of the fused stream. If the stream has ended, the result
    /// is `Ready(None)` and `item` is not looked at: the caller need not
    /// poll the underlying stream, and may pass `Pending`. Otherwise `item`
    /// is what the underlying stream gave, and the end is remembered if
    /// this is it.
    pub fn poll_next<Item>(&mut self, item: Poll<Option<Item>>) -> (r: Poll<Option<Item>>)
        ensures
            r == old(self).spec_poll_next(item),
            final(self).done() == (old(self).done() || item == Poll::<Option<Item>>::Ready(None)),
            final(self).stream() == old(self).stream(),
    {
        if self.done {
            return Poll::Ready(None);
        }
        match item {
            Poll::Ready(None) => {
                self.done = true;
                Poll::Ready(None)
            },
            other => other,
        }
    }
}

/// Once a fused stream has given `Ready(None)`, it gives `Ready(None)` for
/// ever, whatever the underlying stream does.
pub proof fn law_fuse_stays_ended<St, Item>(
    before: Fuse<St>,
    after: Fuse<St>,
    first: Poll<Option<Item>>,
    second: Poll<Option<Item>>,
)
    requires
        before.spec_poll_next(first) == Poll::<Option<Item>>::Ready(None),
        after.done() == (before.done() || first == Poll::<Option<Item>>::Ready(None)),
    ensures
        after.done(),
        after.spec_poll_next(second) == Poll::<Option<Item>>::Ready(None),
{
}

} // verus!
