//! A stream adapter that maps the success values of a stream of results.

use vstd::prelude::*;
use std::task::Poll;

verus! {

/// A stream of results whose `Ok` values go through a function.
#[must_use]
pub struct MapOk<St, F> {
    stream: St,
    f: F,
}

impl<St, F> MapOk<St, F> {
    /// The underlying stream.
    pub closed spec fn stream(&self) -> St {
        self.stream
    }

    /// The function that the `Ok` values go through.
    pub closed spec fn f(&self) -> F {
        self.f
    }

    /// Creates a new MapOk.
    pub fn new(stream: St, f: F) -> (map: Self)
        ensures
            map.stream() == stream,
            map.f() == f,
    {
        MapOk { stream, f }
    }

    /// Acquires a reference to the underlying stream that this combinator
    /// is pulling from.
    pub fn get_ref(&self) -> (stream: &St)
        ensures
            *stream == self.stream(),
    {
        &self.stream
    }

    /// Acquires a mutable reference to the underlying stream that this
    /// combinator is pulling from.
    ///
    /// Note that care must be taken to avoid tampering with the state of
    /// the stream which may otherwise confuse this combinator.
    pub fn get_mut(&mut self) -> (stream: &mut St)
        ensures
            *stream == old(self).stream(),
            final(self).stream() == *final(stream),
            final(self).f() == old(self).f(),
    {
        &mut self.stream
    }

    /// Consumes this combinator, returning the underlying stream.
    pub fn into_inner(self) -> (stream: St)
        ensures
            stream == self.stream(),
    {
        self.stream
    }

    /// One step of the mapped stream: `item` is what the underlying
    /// stream gave. A value goes through the function; an error, the end
    /// of the stream and `Pending` pass as they are.
    pub fn poll_next<T, E, U>(&self, item: Poll<Option<Result<T, E>>>) -> (r: Poll<
        Option<Result<U, E>>,
    >) where F: Fn(T) -> U
        requires
            item matches Poll::Ready(Some(Ok(x))) ==> self.f().requires((x,)),
        ensures
            match item {
                Poll::Ready(Some(Ok(x))) => r matches Poll::Ready(Some(Ok(y))) && self.f().ensures(
                    (x,),
                    y,
                ),
                Poll::Ready(Some(Err(e))) => r == Poll::<Option<Result<U, E>>>::Ready(
                    Some(Err(e)),
                ),
                Poll::Ready(None) => r == Poll::<Option<Result<U, E>>>::Ready(None),
                Poll::Pending => r is Pending,
            },
    {
        match item {
            Poll::Ready(Some(Ok(x))) => Poll::Ready(Some(Ok((self.f)(x)))),
            Poll::Ready(Some(Err(e))) => Poll::Ready(Some(Err(e))),
            Poll::Ready(None) => Poll::Ready(None),
            Poll::Pending => Poll::Pending,
        }
    }
}

} // verus!
