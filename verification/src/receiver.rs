//! The receiving ends of a channel.

use vstd::prelude::*;
use std::marker::PhantomData;
use std::task::Poll;
use std::task::Waker;
use crate::error::TryRecvError;
use crate::inner::Inner;
use crate::lemmas::lemma_close_wf;
use crate::lemmas::lemma_poll_next_wf;
use crate::lemmas::lemma_receive_all_wf;
use crate::lemmas::lemma_receive_wf;
use crate::lemmas::lemma_unpark_one;
use crate::queue::PopResult;
use crate::state::decode_state;
use crate::state::encode_state;
use crate::task::TryPark;

verus! {

/// The receiving end of a bounded channel. There is one per channel.
#[derive(Debug)]
pub struct Receiver<T> {
    pub(crate) marker: PhantomData<T>,
}

/// The receiving end of an unbounded channel.
#[derive(Debug)]
pub struct UnboundedReceiver<T>(pub(crate) Receiver<T>);

impl<T> Receiver<T> {
    /// Closes the receiving half of a channel, without dropping it.
    ///
    /// This prevents any further messages from being sent on the channel
    /// while still enabling the receiver to drain messages that are
    /// buffered. All parked senders are let go, so that they see that the
    /// channel is closed.
    pub fn close(&mut self, inner: &mut Inner<T>)
        requires
            old(inner).wf(),
        ensures
            final(inner)@ == old(inner)@.close(),
            final(inner).wf(),
            old(inner)@.keeps_senders(final(inner)@),
    {
        proof {
            lemma_close_wf(inner@);
        }
        let mut state = decode_state(inner.state);
        if state.is_open {
            state.is_open = false;
            inner.state = encode_state(&state);
        }
        let ghost shut = inner@;
        // Wake up any senders waiting as they'll see that we've closed the
        // channel and will continue on their merry way.
        loop
            invariant
                inner@.parked_wf(),
                inner@.unpark_all() == shut.unpark_all(),
            ensures
                inner@ == shut.unpark_all(),
            decreases inner@.parked.len(),
        {
            proof {
                lemma_unpark_one(inner@);
            }
            let ghost before = inner@;
            match inner.parked_queue.pop() {
                PopResult::Data(id) => {
                    self.notify(inner, id);
                    assert(inner@ == before.unpark_one());
                },
                PopResult::Empty => {
                    break ;
                },
                PopResult::Inconsistent => {},
            }
        }
    }

    /// Tries to receive the next message without parking.
    ///
    /// Gives `Ok(Some(..))` for a value, `Ok(None)` at the end of the
    /// stream, and an error if the channel is open and holds nothing.
    pub fn try_next(&mut self, inner: &mut Inner<T>) -> (r: Result<Option<T>, TryRecvError>)
        requires
            old(inner).wf(),
        ensures
            (final(inner)@, r) == old(inner)@.try_next(),
            final(inner).wf(),
            old(inner)@.keeps_senders(final(inner)@),
    {
        match self.next_message(inner) {
            Poll::Ready(msg) => Ok(msg),
            Poll::Pending => {
                let state = decode_state(inner.state);
                if !state.is_open && state.num_messages == 0 {
                    Ok(None)
                } else {
                    Err(TryRecvError { _inner: () })
                }
            },
        }
    }

    /// Takes the next entry out of the message queue, if there is one:
    /// then lets one parked sender go, then lowers the count.
    pub fn next_message(&mut self, inner: &mut Inner<T>) -> (r: Poll<Option<T>>)
        requires
            old(inner).wf(),
        ensures
            (final(inner)@, r) == old(inner)@.next_message(),
            final(inner).wf(),
            old(inner)@.keeps_senders(final(inner)@),
    {
        // Pop off a message
        loop
            invariant
                inner@ == old(inner)@,
                inner.wf(),
            decreases 0nat,
        {
            proof {
                if inner@.messages.len() > 0 {
                    lemma_receive_wf(inner@);
                }
            }
            match inner.message_queue.pop() {
                PopResult::Data(msg) => {
                    // If there are any parked senders in the parked queue,
                    // pop one and unpark it.
                    self.unpark_one(inner);
                    // Decrement number of messages
                    self.dec_num_messages(inner);
                    return Poll::Ready(msg);
                },
                PopResult::Empty => {
                    // The queue is empty, return Pending
                    return Poll::Pending;
                },
                PopResult::Inconsistent => {
                    // A push is under way: there will be a message to pop
                    // in a short time, so look again.
                },
            }
        }
    }

    /// Unparks a single sender if there is one pending in the parked queue.
    pub(crate) fn unpark_one(&mut self, inner: &mut Inner<T>)
        requires
            old(inner)@.parked_wf(),
        ensures
            final(inner)@ == old(inner)@.unpark_one(),
    {
        loop
            invariant
                inner@ == old(inner)@,
                inner@.parked_wf(),
            decreases 0nat,
        {
            match inner.parked_queue.pop() {
                PopResult::Data(id) => {
                    self.notify(inner, id);
                    return ;
                },
                PopResult::Empty => {
                    // Queue empty, no sender to wake up.
                    return ;
                },
                PopResult::Inconsistent => {
                    // Same as for the message queue: look again.
                },
            }
        }
    }

    /// Clears the wake cell `id` and puts its waker with those that are to
    /// be invoked.
    pub(crate) fn notify(&self, inner: &mut Inner<T>, id: usize)
        requires
            id < old(inner)@.cells.len(),
        ensures
            final(inner)@ == old(inner)@.notify(id),
    {
        match inner.cells[id].cell.notify() {
            Some(task) => {
                inner.wakers.push(task);
                assert(inner@.wakers =~= old(inner)@.wakers + seq![task]);
            },
            None => {
                assert(inner@.wakers =~= old(inner)@.wakers + Seq::<Waker>::empty());
            },
        }
        assert(inner@.cells =~= old(inner)@.notify(id).cells);
    }

    /// Tries to park the receiver. The waker leaves `lw` if it does park.
    pub(crate) fn try_park(&self, inner: &mut Inner<T>, lw: &mut Option<Waker>) -> (r: TryPark)
        requires
            *old(lw) is Some,
        ensures
            (final(inner)@, r) == old(inner)@.try_park((*old(lw))->0),
            *final(lw) == if r == TryPark::Parked {
                None
            } else {
                *old(lw)
            },
    {
        if inner.recv_task.unparked {
            // Consume the signal without actually parking
            inner.recv_task.unparked = false;
            return TryPark::NotEmpty;
        }
        let state = decode_state(inner.state);
        // If the channel is closed and empty, there is no need to park.
        if !state.is_open && state.num_messages == 0 {
            return TryPark::Closed;
        }
        // Track the waker in the receiver's slot
        inner.recv_task.task = lw.take();
        TryPark::Parked
    }

    /// Lowers the count of queued messages by one.
    pub(crate) fn dec_num_messages(&self, inner: &mut Inner<T>)
        requires
            old(inner)@.state.num_messages >= 1,
        ensures
            final(inner)@ == old(inner)@.release(),
    {
        let mut state = decode_state(inner.state);
        state.num_messages = state.num_messages - 1;
        inner.state = encode_state(&state);
    }

    /// Polls for the next message.
    ///
    /// Gives `Ready(Some(..))` for a value and `Ready(None)` at the end of
    /// the stream. If the channel is open and holds nothing, the waker is
    /// left in the receiver's slot, to be handed out by the next send, and
    /// the result is `Pending`.
    pub fn poll_next(&mut self, inner: &mut Inner<T>, lw: Waker) -> (r: Poll<Option<T>>)
        requires
            old(inner).wf(),
        ensures
            (final(inner)@, r) == old(inner)@.poll_next(lw),
            final(inner).wf(),
            old(inner)@.keeps_senders(final(inner)@),
    {
        let mut lw_slot = Some(lw);
        loop
            invariant
                inner.wf(),
                lw_slot == Some(lw),
                inner@.poll_next(lw) == old(inner)@.poll_next(lw),
                old(inner)@.keeps_senders(inner@),
            decreases
                    (if inner@.recv_task.unparked {
                        1nat
                    } else {
                        0nat
                    }),
        {
            proof {
                lemma_poll_next_wf(inner@, lw);
            }
            let ghost before = inner@;
            // Try to read a message off of the message queue.
            match self.next_message(inner) {
                Poll::Ready(msg) => {
                    return Poll::Ready(msg);
                },
                Poll::Pending => {
                    // There are no messages to read, in this case, attempt
                    // to park.
                    match self.try_park(inner, &mut lw_slot) {
                        TryPark::Parked => {
                            // The receiver is parked, and the channel is
                            // still empty.
                            return Poll::Pending;
                        },
                        TryPark::Closed => {
                            // The channel is closed, there will be no
                            // further messages.
                            return Poll::Ready(None);
                        },
                        TryPark::NotEmpty => {
                            // A sender has signalled since the receiver
                            // last looked: look again.
                            assert(inner@.poll_next(lw) == before.poll_next(lw));
                        },
                    }
                },
            }
        }
    }

    /// Gives the receiver up: the channel is closed, and all messages that
    /// are still queued are taken out and dropped.
    pub fn drop(self, inner: &mut Inner<T>)
        requires
            old(inner).wf(),
        ensures
            final(inner)@ == old(inner)@.drop_receiver(),
            final(inner).wf(),
            final(inner)@.messages.len() == 0,
            old(inner)@.keeps_senders(final(inner)@),
    {
        let mut rx = self;
        // Drain the channel of all pending messages
        rx.close(inner);
        let ghost shut = inner@;
        proof {
            lemma_receive_all_wf(shut);
        }
        loop
            invariant
                inner.wf(),
                inner@.receive_all() == shut.receive_all(),
                old(inner)@.keeps_senders(inner@),
            ensures
                inner@ == shut.receive_all(),
                inner.wf(),
                old(inner)@.keeps_senders(inner@),
            decreases inner@.messages.len(),
        {
            proof {
                if inner@.messages.len() > 0 {
                    lemma_receive_wf(inner@);
                }
            }
            match rx.next_message(inner) {
                Poll::Ready(_) => {},
                Poll::Pending => {
                    break ;
                },
            }
        }
    }
}

impl<T> UnboundedReceiver<T> {
    /// Closes the receiving half of the channel, without dropping it.
    pub fn close(&mut self, inner: &mut Inner<T>)
        requires
            old(inner).wf(),
        ensures
            final(inner)@ == old(inner)@.close(),
            final(inner).wf(),
            old(inner)@.keeps_senders(final(inner)@),
    {
        self.0.close(inner);
    }

    /// Tries to receive the next message without parking.
    pub fn try_next(&mut self, inner: &mut Inner<T>) -> (r: Result<Option<T>, TryRecvError>)
        requires
            old(inner).wf(),
        ensures
            (final(inner)@, r) == old(inner)@.try_next(),
            final(inner).wf(),
            old(inner)@.keeps_senders(final(inner)@),
    {
        self.0.try_next(inner)
    }

    /// Polls for the next message.
    pub fn poll_next(&mut self, inner: &mut Inner<T>, lw: Waker) -> (r: Poll<Option<T>>)
        requires
            old(inner).wf(),
        ensures
            (final(inner)@, r) == old(inner)@.poll_next(lw),
            final(inner).wf(),
            old(inner)@.keeps_senders(final(inner)@),
    {
        self.0.poll_next(inner, lw)
    }

    /// Gives the receiver up: the channel is closed and emptied.
    pub fn drop(self, inner: &mut Inner<T>)
        requires
            old(inner).wf(),
        ensures
            final(inner)@ == old(inner)@.drop_receiver(),
            final(inner).wf(),
            final(inner)@.messages.len() == 0,
            old(inner)@.keeps_senders(final(inner)@),
    {
        self.0.drop(inner)
    }
}

} // verus!
