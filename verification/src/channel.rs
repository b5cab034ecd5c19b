//! Making a channel.

use vstd::prelude::*;
use std::marker::PhantomData;
use crate::inner::Inner;
use crate::model::InnerView;
use crate::model::SenderView;
use crate::receiver::Receiver;
use crate::receiver::UnboundedReceiver;
use crate::sender::Sender;
use crate::sender::UnboundedSender;
use crate::state::MAX_BUFFER;

verus! {

/// Creates a bounded channel for communicating between asynchronous tasks.
///
/// Being bounded, this channel provides backpressure to ensure that the
/// senders outpace the receiver by only a limited amount. The channel's
/// capacity is `buffer` plus the number of senders: each sender gets a
/// guaranteed slot, and on top of that there are `buffer` slots for
/// whoever comes first.
///
/// The block that comes with the two handles is the shared state of the
/// channel: every operation of a handle takes it.
pub fn channel<T>(buffer: usize) -> (r: (Sender<T>, Receiver<T>, Inner<T>))
    requires
        buffer < MAX_BUFFER,
    ensures
        r.2@ == InnerView::<T>::init(Some(buffer)),
        r.0@ == (SenderView { cell: 0, maybe_parked: false }),
        r.2.wf(),
        r.2@.attached(r.0@),
{
    channel2(Some(buffer))
}

/// Creates an unbounded channel for communicating between asynchronous
/// tasks.
///
/// A send on this channel always succeeds as long as the channel is open.
/// If the receiver falls behind, messages are buffered without limit.
pub fn unbounded<T>() -> (r: (UnboundedSender<T>, UnboundedReceiver<T>, Inner<T>))
    ensures
        r.2@ == InnerView::<T>::init(None),
        r.0@ == (SenderView { cell: 0, maybe_parked: false }),
        r.2.wf(),
        r.2@.attached(r.0@),
{
    let (tx, rx, inner) = channel2(None);
    (UnboundedSender(tx), UnboundedReceiver(rx), inner)
}

/// Creates the block of a channel with the given buffer, its first sender
/// and its receiver.
pub fn channel2<T>(buffer: Option<usize>) -> (r: (Sender<T>, Receiver<T>, Inner<T>))
    requires
        buffer matches Some(b) ==> b < MAX_BUFFER,
    ensures
        r.2@ == InnerView::<T>::init(buffer),
        r.0@ == (SenderView { cell: 0, maybe_parked: false }),
        r.2.wf(),
        r.2@.attached(r.0@),
{
    let inner = Inner::new(buffer);
    let tx = Sender { cell: 0, maybe_parked: false, marker: PhantomData };
    let rx = Receiver { marker: PhantomData };
    (tx, rx, inner)
}

} // verus!
