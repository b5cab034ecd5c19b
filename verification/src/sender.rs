//! The sending ends of a channel.

use vstd::prelude::*;
use std::marker::PhantomData;
use std::task::Poll;
use std::task::Waker;
use crate::error::SendError;
use crate::error::SendErrorKind;
use crate::error::TrySendError;
use crate::inner::Inner;
use crate::lemmas::lemma_add_sender_wf;
use crate::lemmas::lemma_do_send_wf;
use crate::lemmas::lemma_drop_sender_wf;
use crate::lemmas::lemma_first_free;
use crate::lemmas::lemma_poll_unparked_wf;
use crate::lemmas::lemma_send_unbounded_wf;
use crate::lemmas::lemma_terminate_wf;
use crate::model::first_free;
use crate::model::SenderView;
use crate::state::decode_state;
use crate::state::encode_state;
use crate::state::MAX_CAPACITY;
use crate::task::SenderTask;
use crate::task::Slot;

verus! {

/// The transmission end of a bounded channel.
///
/// A sender holds the index of its wake cell in the channel's block, and
/// remembers whether it may be parked.
#[derive(Debug)]
pub struct Sender<T> {
    /// Index of the wake cell that the receiver clears to let this sender
    /// go on.
    pub(crate) cell: usize,
    /// True if the sender might be parked: only then its cell is looked at.
    pub(crate) maybe_parked: bool,
    pub(crate) marker: PhantomData<T>,
}

/// The transmission end of an unbounded channel.
#[derive(Debug)]
pub struct UnboundedSender<T>(pub(crate) Sender<T>);

impl<T> View for Sender<T> {
    type V = SenderView;

    open(crate) spec fn view(&self) -> SenderView {
        SenderView { cell: self.cell, maybe_parked: self.maybe_parked }
    }
}

impl<T> View for UnboundedSender<T> {
    type V = SenderView;

    open(crate) spec fn view(&self) -> SenderView {
        self.0@
    }
}

impl<T> Sender<T> {
    /// Whether this handle belongs to a live sender of the channel with
    /// the block `inner`.
    pub fn is_attached(&self, inner: &Inner<T>) -> (b: bool)
        ensures
            b == inner@.attached(self@),
    {
        self.cell < inner.cells.len() && inner.cells[self.cell].owned && (
        !inner.cells[self.cell].cell.is_parked || self.maybe_parked)
    }

    /// Attempts to send a message on this `Sender`, returning the message
    /// if there was an error.
    ///
    /// A sender that is parked is turned down with `Full`; a closed
    /// channel turns every sender down with `Disconnected`. Otherwise the
    /// message joins the queue, and the sender parks if the queue has
    /// grown beyond the buffer.
    pub fn try_send(&mut self, inner: &mut Inner<T>, msg: T) -> (r: Result<(), TrySendError<T>>)
        requires
            old(inner).wf(),
            old(inner)@.attached(old(self)@),
            old(inner)@.state.num_messages < MAX_CAPACITY,
        ensures
            (final(inner)@, final(self)@, r) == old(inner)@.try_send(old(self)@, msg),
            final(inner).wf(),
            final(inner)@.attached(final(self)@),
            old(inner)@.keeps_other_senders(final(inner)@, old(self)@),
    {
        proof {
            lemma_poll_unparked_wf(inner@, self@, None);
            let looked = inner@.poll_unparked(self@, None);
            if looked.2 is Ready {
                lemma_do_send_wf(looked.0, looked.1, None, msg);
            }
            assert forall|other: SenderView| #[trigger]
                inner@.attached(other) && other.cell != self@.cell implies inner@.try_send(
                self@,
                msg,
            ).0.attached(other) by {
                assert(looked.0.attached(other));
            }
        }
        // If the sender is currently blocked, reject the message
        match self.poll_unparked(inner, None) {
            Poll::Pending => Err(
                TrySendError { err: SendError { kind: SendErrorKind::Full }, val: msg },
            ),
            // The channel has capacity to accept the message, so send it
            Poll::Ready(_) => self.do_send(inner, None, msg),
        }
    }

    /// Send a message on the channel.
    ///
    /// This function should only be called after `poll_ready` has reported
    /// that the channel is ready to receive a message.
    pub fn start_send(&mut self, inner: &mut Inner<T>, msg: T) -> (r: Result<(), SendError>)
        requires
            old(inner).wf(),
            old(inner)@.attached(old(self)@),
            old(inner)@.state.num_messages < MAX_CAPACITY,
        ensures
            final(inner)@ == old(inner)@.try_send(old(self)@, msg).0,
            final(self)@ == old(inner)@.try_send(old(self)@, msg).1,
            r == match old(inner)@.try_send(old(self)@, msg).2 {
                Ok(_) => Ok::<(), SendError>(()),
                Err(e) => Err(e.err),
            },
            final(inner).wf(),
            final(inner)@.attached(final(self)@),
            old(inner)@.keeps_other_senders(final(inner)@, old(self)@),
    {
        match self.try_send(inner, msg) {
            Ok(_) => Ok(()),
            Err(e) => Err(e.err),
        }
    }

    /// Sends a value from a sender that is free to send.
    pub(crate) fn do_send(&mut self, inner: &mut Inner<T>, lw: Option<Waker>, msg: T) -> (r:
        Result<(), TrySendError<T>>)
        requires
            old(inner).wf(),
            old(inner)@.attached(old(self)@),
            old(inner)@.ready(old(self)@),
            old(inner)@.state.num_messages < MAX_CAPACITY,
        ensures
            (final(inner)@, final(self)@, r) == old(inner)@.do_send(old(self)@, lw, msg),
            final(inner).wf(),
            final(inner)@.attached(final(self)@),
    {
        proof {
            lemma_do_send_wf(inner@, self@, lw, msg);
        }
        // First, increment the number of messages contained by the channel.
        // This also tells whether the sender has to park.
        let park_self = match self.inc_num_messages(inner, false) {
            Some(park_self) => park_self,
            None => {
                return Err(
                    TrySendError { err: SendError { kind: SendErrorKind::Disconnected }, val: msg },
                );
            },
        };
        // If the channel has reached capacity, the sender parks: its cell
        // goes on the queue of parked senders.
        if park_self {
            self.park(inner, lw);
        }
        self.queue_push_and_signal(inner, Some(msg));
        Ok(())
    }

    /// Sends without parking: a value on a channel without a buffer limit,
    /// or the termination sentinel on any channel.
    pub(crate) fn do_send_nb(&self, inner: &mut Inner<T>, msg: Option<T>) -> (r: Result<
        (),
        TrySendError<T>,
    >)
        requires
            msg is Some || !old(inner)@.terminated ==> old(inner)@.state.num_messages
                < MAX_CAPACITY,
        ensures
            msg matches Some(m) ==> (final(inner)@, r) == old(inner)@.send_unbounded(m),
            msg is None ==> final(inner)@ == old(inner)@.terminate() && r is Ok,
    {
        match msg {
            Some(m) => {
                match self.inc_num_messages(inner, false) {
                    Some(_) => {},
                    None => {
                        return Err(
                            TrySendError {
                                err: SendError { kind: SendErrorKind::Disconnected },
                                val: m,
                            },
                        );
                    },
                }
                self.queue_push_and_signal(inner, Some(m));
                Ok(())
            },
            None => {
                // The sentinel is sent once, also when the receiver has
                // closed the channel in the meantime.
                if inner.terminated {
                    return Ok(());
                }
                let _ = self.inc_num_messages(inner, true);
                inner.terminated = true;
                self.queue_push_and_signal(inner, None);
                Ok(())
            },
        }
    }

    /// What a sender that never parks learns when it asks whether it may
    /// send: that depends on the open flag alone.
    pub(crate) fn poll_ready_nb(&self, inner: &Inner<T>) -> (r: Poll<Result<(), SendError>>)
        ensures
            r == inner@.poll_ready_unbounded(),
    {
        let state = decode_state(inner.state);
        if state.is_open {
            Poll::Ready(Ok(()))
        } else {
            Poll::Ready(Err(SendError { kind: SendErrorKind::Disconnected }))
        }
    }

    /// Pushes an entry onto the message queue and signals the receiver.
    pub(crate) fn queue_push_and_signal(&self, inner: &mut Inner<T>, msg: Option<T>)
        ensures
            final(inner)@ == old(inner)@.push_and_signal(msg),
    {
        // Push the message onto the message queue
        inner.message_queue.push(msg);
        // Signal to the receiver that a message has been enqueued. If the
        // receiver is parked, this hands out its waker.
        self.signal(inner);
    }

    /// Increments the number of queued messages, and closes the channel
    /// in the same step if `close` is set. Returns whether the sender has
    /// to park; `None` if the channel is closed and `close` is not set.
    pub(crate) fn inc_num_messages(&self, inner: &mut Inner<T>, close: bool) -> (r: Option<bool>)
        requires
            old(inner)@.state.num_messages < MAX_CAPACITY,
        ensures
            !old(inner)@.state.is_open && !close ==> r is None && final(inner)@ == old(inner)@,
            old(inner)@.state.is_open || close ==> final(inner)@ == old(inner)@.reserve(close)
                && r == Some(!close && final(inner)@.over_buffer()),
    {
        let mut state = decode_state(inner.state);
        // The receiver end closed the channel.
        if !state.is_open && !close {
            return None;
        }
        state.num_messages = state.num_messages + 1;
        // The channel is closed by all sender handles being dropped.
        if close {
            state.is_open = false;
        }
        inner.state = encode_state(&state);
        // Park if the number of pending messages has gone beyond the
        // configured buffer size
        let park_self = !close && match inner.buffer {
            Some(buffer) => state.num_messages > buffer,
            None => false,
        };
        Some(park_self)
    }

    /// Signals to the receiver that a message has been enqueued.
    pub(crate) fn signal(&self, inner: &mut Inner<T>)
        ensures
            final(inner)@ == old(inner)@.signal(),
    {
        // If the receiver has already been signalled, there is nothing
        // more to do
        if inner.recv_task.unparked {
            return ;
        }
        // Setting this flag lets the receiver see that it was signalled,
        // so that it does not park.
        inner.recv_task.unparked = true;
        match inner.recv_task.task.take() {
            Some(task) => {
                inner.wakers.push(task);
                assert(inner@.wakers =~= old(inner)@.wakers + seq![task]);
            },
            None => {
                assert(inner@.wakers =~= old(inner)@.wakers + Seq::<Waker>::empty());
            },
        }
    }

    /// Parks the sender: fills its cell and sends the cell over the queue
    /// of parked senders.
    pub(crate) fn park(&mut self, inner: &mut Inner<T>, lw: Option<Waker>)
        requires
            old(self)@.cell < old(inner)@.cells.len(),
        ensures
            (final(inner)@, final(self)@) == old(inner)@.park(old(self)@, lw),
    {
        let slot = &mut inner.cells[self.cell];
        slot.cell.task = lw;
        slot.cell.is_parked = true;
        // Send the cell over the queue
        inner.parked_queue.push(self.cell);
        // Check to make sure we weren't closed after we sent our cell on
        // the queue
        let state = decode_state(inner.state);
        self.maybe_parked = state.is_open;
        assert(inner@.cells =~= old(inner)@.park(old(self)@, lw).0.cells);
    }

    /// Polls the channel to determine if there is guaranteed capacity to
    /// send at least one item without waiting.
    ///
    /// Returns `Ready(Ok(()))` if there is, `Ready(Err(..))` if the channel
    /// is closed, and `Pending` if the sender is parked; the waker is then
    /// left in the sender's cell, to be handed out when the receiver lets
    /// the sender go on.
    pub fn poll_ready(&mut self, inner: &mut Inner<T>, lw: Waker) -> (r: Poll<
        Result<(), SendError>,
    >)
        requires
            old(inner).wf(),
            old(inner)@.attached(old(self)@),
        ensures
            (final(inner)@, final(self)@, r) == old(inner)@.poll_ready(old(self)@, lw),
            final(inner).wf(),
            final(inner)@.attached(final(self)@),
            old(inner)@.keeps_other_senders(final(inner)@, old(self)@),
    {
        let state = decode_state(inner.state);
        if !state.is_open {
            return Poll::Ready(Err(SendError { kind: SendErrorKind::Disconnected }));
        }
        proof {
            lemma_poll_unparked_wf(inner@, self@, Some(lw));
        }
        match self.poll_unparked(inner, Some(lw)) {
            Poll::Ready(_) => Poll::Ready(Ok(())),
            Poll::Pending => Poll::Pending,
        }
    }

    /// Returns whether this channel is closed without needing a context.
    pub fn is_closed(&self, inner: &Inner<T>) -> (b: bool)
        ensures
            b == !inner@.state.is_open,
    {
        !decode_state(inner.state).is_open
    }

    /// Closes this channel from the sender side, preventing any new
    /// messages. The termination sentinel is enqueued unless it has been
    /// before.
    pub fn close_channel(&mut self, inner: &mut Inner<T>)
        requires
            old(inner).wf(),
            !old(inner)@.terminated ==> old(inner)@.state.num_messages < MAX_CAPACITY,
        ensures
            final(inner)@ == old(inner)@.terminate(),
            final(self)@ == old(self)@,
            final(inner).wf(),
            old(inner)@.keeps_senders(final(inner)@),
    {
        proof {
            lemma_terminate_wf(inner@);
        }
        let _ = self.do_send_nb(inner, None);
    }

    /// Looks whether the sender still waits in the queue of parked
    /// senders. If it does, `lw` replaces the waker in its cell.
    pub(crate) fn poll_unparked(&mut self, inner: &mut Inner<T>, lw: Option<Waker>) -> (r: Poll<()>)
        requires
            old(self)@.cell < old(inner)@.cells.len(),
        ensures
            (final(inner)@, final(self)@, r) == old(inner)@.poll_unparked(old(self)@, lw),
    {
        // First check the `maybe_parked` variable. This avoids looking at
        // the cell in most cases
        if self.maybe_parked {
            let slot = &mut inner.cells[self.cell];
            if !slot.cell.is_parked {
                self.maybe_parked = false;
                assert(inner@.cells =~= old(inner)@.cells);
                return Poll::Ready(());
            }
            // At this point, an unpark request is pending, so there will
            // be an unpark sometime in the future. We just need to make
            // sure that the right task will be notified.
            slot.cell.task = lw;
            assert(inner@.cells =~= old(inner)@.poll_unparked(old(self)@, lw).0.cells);
            Poll::Pending
        } else {
            Poll::Ready(())
        }
    }

    /// Makes one more sender for the channel.
    ///
    /// The number of senders of a channel is limited, so that the count of
    /// messages always fits the state word; `Inner::can_add_sender` tells
    /// whether one more may join.
    pub fn clone(&self, inner: &mut Inner<T>) -> (tx: Sender<T>)
        requires
            old(inner).wf(),
            old(inner)@.num_senders < crate::model::spec_max_senders(old(inner)@.buffer),
        ensures
            (final(inner)@, tx@) == old(inner)@.add_sender(),
            final(inner).wf(),
            final(inner)@.attached(tx@),
            old(inner)@.keeps_senders(final(inner)@),
            forall|other: SenderView| #[trigger] old(inner)@.attached(other) ==> other.cell != tx@.cell,
    {
        let curr = inner.num_senders;
        inner.num_senders = curr + 1;
        // The new sender takes the first cell that nothing refers to any
        // more, or a new one.
        let mut id: usize = 0;
        while id < inner.cells.len() && (inner.cells[id].owned || inner.cells[id].cell.is_parked)
            invariant
                id <= inner.cells.len(),
                first_free(inner.cells@, 0) == first_free(inner.cells@, id as nat),
            decreases inner.cells.len() - id,
        {
            id = id + 1;
        }
        proof {
            lemma_first_free(inner.cells@, id as nat);
        }
        if id < inner.cells.len() {
            inner.cells[id] = Slot { cell: SenderTask::new(), owned: true };
        } else {
            inner.cells.push(Slot { cell: SenderTask::new(), owned: true });
        }
        proof {
            assert(inner@.cells =~= old(inner)@.add_sender().0.cells);
            lemma_add_sender_wf(old(inner)@);
        }
        Sender { cell: id, maybe_parked: false, marker: PhantomData }
    }

    /// Gives the sender up. The last sender to go terminates the stream:
    /// the sentinel is enqueued unless it has been before.
    pub fn drop(self, inner: &mut Inner<T>)
        requires
            old(inner).wf(),
            old(inner)@.attached(self@),
            old(inner)@.num_senders == 1 && !old(inner)@.terminated ==> old(
                inner,
            )@.state.num_messages < MAX_CAPACITY,
        ensures
            final(inner)@ == old(inner)@.drop_sender(self@),
            final(inner).wf(),
            old(inner)@.keeps_other_senders(final(inner)@, self@),
    {
        proof {
            lemma_drop_sender_wf(inner@, self@);
        }
        let prev = inner.num_senders;
        inner.num_senders = prev - 1;
        inner.cells[self.cell].owned = false;
        assert(inner@.cells =~= old(inner)@.cells.update(
            self.cell as int,
            Slot { cell: old(inner)@.cells[self.cell as int].cell, owned: false },
        ));
        if prev == 1 {
            // There's no need to park this sender, it is going away.
            let _ = self.do_send_nb(inner, None);
        }
    }
}

impl<T> UnboundedSender<T> {
    /// Whether this handle belongs to a live sender of the channel with
    /// the block `inner`.
    pub fn is_attached(&self, inner: &Inner<T>) -> (b: bool)
        ensures
            b == inner@.attached(self@),
    {
        self.0.is_attached(inner)
    }

    /// Check if the channel is ready to receive a message: it is, as long
    /// as it is open.
    pub fn poll_ready(&self, inner: &Inner<T>) -> (r: Poll<Result<(), SendError>>)
        ensures
            r == inner@.poll_ready_unbounded(),
    {
        self.0.poll_ready_nb(inner)
    }

    /// Returns whether this channel is closed without needing a context.
    pub fn is_closed(&self, inner: &Inner<T>) -> (b: bool)
        ensures
            b == !inner@.state.is_open,
    {
        self.0.is_closed(inner)
    }

    /// Closes this channel from the sender side, preventing any new
    /// messages. The termination sentinel is enqueued unless it has been
    /// before.
    pub fn close_channel(&self, inner: &mut Inner<T>)
        requires
            old(inner).wf(),
            !old(inner)@.terminated ==> old(inner)@.state.num_messages < MAX_CAPACITY,
        ensures
            final(inner)@ == old(inner)@.terminate(),
            final(inner).wf(),
            old(inner)@.keeps_senders(final(inner)@),
    {
        proof {
            lemma_terminate_wf(inner@);
        }
        let _ = self.0.do_send_nb(inner, None);
    }

    /// Send a message on the channel.
    pub fn start_send(&mut self, inner: &mut Inner<T>, msg: T) -> (r: Result<(), SendError>)
        requires
            old(inner).wf(),
            old(inner)@.buffer is None,
            old(inner)@.state.num_messages < MAX_CAPACITY,
        ensures
            final(inner)@ == old(inner)@.send_unbounded(msg).0,
            final(self)@ == old(self)@,
            r == match old(inner)@.send_unbounded(msg).1 {
                Ok(_) => Ok::<(), SendError>(()),
                Err(e) => Err(e.err),
            },
            final(inner).wf(),
            old(inner)@.keeps_senders(final(inner)@),
    {
        proof {
            lemma_send_unbounded_wf(inner@, msg);
        }
        match self.0.do_send_nb(inner, Some(msg)) {
            Ok(_) => Ok(()),
            Err(e) => Err(e.err),
        }
    }

    /// Sends a message along this channel.
    ///
    /// This is an unbounded sender, so the send never fails for want of
    /// room: it fails only if the channel is closed.
    pub fn unbounded_send(&self, inner: &mut Inner<T>, msg: T) -> (r: Result<
        (),
        TrySendError<T>,
    >)
        requires
            old(inner).wf(),
            old(inner)@.buffer is None,
            old(inner)@.state.num_messages < MAX_CAPACITY,
        ensures
            (final(inner)@, r) == old(inner)@.send_unbounded(msg),
            final(inner).wf(),
            old(inner)@.keeps_senders(final(inner)@),
    {
        proof {
            lemma_send_unbounded_wf(inner@, msg);
        }
        self.0.do_send_nb(inner, Some(msg))
    }

    /// Makes one more sender for the channel.
    pub fn clone(&self, inner: &mut Inner<T>) -> (tx: UnboundedSender<T>)
        requires
            old(inner).wf(),
            old(inner)@.num_senders < crate::model::spec_max_senders(old(inner)@.buffer),
        ensures
            (final(inner)@, tx@) == old(inner)@.add_sender(),
            final(inner).wf(),
            final(inner)@.attached(tx@),
            old(inner)@.keeps_senders(final(inner)@),
            forall|other: SenderView| #[trigger] old(inner)@.attached(other) ==> other.cell != tx@.cell,
    {
        UnboundedSender(self.0.clone(inner))
    }

    /// Gives the sender up. The last sender to go terminates the stream.
    pub fn drop(self, inner: &mut Inner<T>)
        requires
            old(inner).wf(),
            old(inner)@.attached(self@),
            old(inner)@.num_senders == 1 && !old(inner)@.terminated ==> old(
                inner,
            )@.state.num_messages < MAX_CAPACITY,
        ensures
            final(inner)@ == old(inner)@.drop_sender(self@),
            final(inner).wf(),
            old(inner)@.keeps_other_senders(final(inner)@, self@),
    {
        self.0.drop(inner)
    }
}

} // verus!
