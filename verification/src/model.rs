//! The channel as a mathematical object: the state that all handles of one
//! channel share, and what each operation makes of it.
//!
//! Every executable operation of the channel is specified as one of the
//! functions below, applied to the state before the call.

use vstd::prelude::*;
use std::task::Poll;
use std::task::Waker;
use crate::error::SendError;
use crate::error::SendErrorKind;
use crate::error::TryRecvError;
use crate::error::TrySendError;
use crate::state::State;
use crate::state::MAX_BUFFER;
use crate::state::MAX_CAPACITY;
use crate::task::waker_seq;
use crate::task::ReceiverTask;
use crate::task::SenderTask;
use crate::task::Slot;
use crate::task::TryPark;

verus! {

/// What a sender handle holds: the index of its wake cell, and whether it
/// may be parked.
pub struct SenderView {
    pub cell: usize,
    pub maybe_parked: bool,
}

/// The state shared by the handles of one channel.
pub struct InnerView<T> {
    /// The buffer size; `None` for an unbounded channel.
    pub buffer: Option<usize>,
    /// The decoded state word.
    pub state: State,
    /// The message queue, oldest first. `None` is the termination sentinel.
    pub messages: Seq<Option<T>>,
    /// The queue of parked senders, by the index of their wake cells.
    pub parked: Seq<usize>,
    /// The number of live senders.
    pub num_senders: usize,
    /// The receiver's wake slot.
    pub recv_task: ReceiverTask,
    /// The wake cells of the senders.
    pub cells: Seq<Slot>,
    /// Whether the termination sentinel has been enqueued.
    pub terminated: bool,
    /// The wakers that were taken out of their cells and are to be invoked
    /// as soon as the state is released, oldest first.
    pub wakers: Seq<Waker>,
}

/// Number of cells whose sender is alive.
pub open spec fn owned_count(cells: Seq<Slot>) -> nat
    decreases cells.len(),
{
    if cells.len() == 0 {
        0
    } else {
        owned_count(cells.drop_last()) + if cells.last().owned {
            1nat
        } else {
            0nat
        }
    }
}

/// Index of the first free cell at or after `from`; the number of cells
/// if there is none.
pub open spec fn first_free(cells: Seq<Slot>, from: nat) -> nat
    decreases cells.len() - from,
{
    if from >= cells.len() {
        cells.len()
    } else if cells[from as int].is_free() {
        from
    } else {
        first_free(cells, from + 1)
    }
}

/// Number of values in a message queue whose sentinel, if any, is last.
pub open spec fn num_values<T>(messages: Seq<Option<T>>) -> nat {
    if messages.len() > 0 && messages.last() is None {
        (messages.len() - 1) as nat
    } else {
        messages.len()
    }
}

/// The largest number of senders that a channel of the given buffer can
/// have at a time.
pub open spec fn spec_max_senders(buffer: Option<usize>) -> usize {
    match buffer {
        Some(b) => (MAX_CAPACITY - b) as usize,
        None => MAX_BUFFER,
    }
}

/// The cell of a sender that has just been let go.
pub open spec fn cleared(slot: Slot) -> Slot {
    Slot { cell: SenderTask { task: None, is_parked: false }, owned: slot.owned }
}

/// The cell of a new sender.
pub open spec fn fresh_slot() -> Slot {
    Slot { cell: SenderTask { task: None, is_parked: false }, owned: true }
}

/// The error of a send on a closed channel.
pub open spec fn disconnected<T>(msg: T) -> TrySendError<T> {
    TrySendError { err: SendError { kind: SendErrorKind::Disconnected }, val: msg }
}

/// The error of a send by a sender that has to wait.
pub open spec fn full<T>(msg: T) -> TrySendError<T> {
    TrySendError { err: SendError { kind: SendErrorKind::Full }, val: msg }
}

impl<T> InnerView<T> {
    /// The state of a new channel with one sender.
    pub open spec fn init(buffer: Option<usize>) -> Self {
        InnerView {
            buffer,
            state: State { is_open: true, num_messages: 0 },
            messages: Seq::empty(),
            parked: Seq::empty(),
            num_senders: 1,
            recv_task: ReceiverTask { unparked: false, task: None },
            cells: seq![fresh_slot()],
            terminated: false,
            wakers: Seq::empty(),
        }
    }

    /// The count in the state word is the length of the message queue.
    pub open spec fn counts_wf(self) -> bool {
        &&& self.state.num_messages == self.messages.len()
        &&& self.state.num_messages <= MAX_CAPACITY
    }

    /// The sentinel is the last entry of the message queue, and it is
    /// there only when the stream has been terminated; a terminated
    /// channel is closed, and nothing is queued behind its sentinel.
    pub open spec fn sentinel_wf(self) -> bool {
        &&& forall|i: int|
            0 <= i < self.messages.len() && (#[trigger] self.messages[i]) is None ==> i
                == self.messages.len() - 1 && self.terminated
        &&& self.terminated ==> !self.state.is_open
        &&& self.terminated ==> self.messages.len() == 0 || self.messages.last() is None
    }

    /// The queue of parked senders holds exactly the cells that are marked
    /// as parked, each once; a cell that is not parked holds no waker.
    pub open spec fn parked_wf(self) -> bool {
        &&& self.cells.len() <= usize::MAX
        &&& forall|k: int|
            0 <= k < self.parked.len() ==> (#[trigger] self.parked[k]) < self.cells.len()
                && self.cells[self.parked[k] as int].cell.is_parked
        &&& self.parked.no_duplicates()
        &&& forall|i: int|
            0 <= i < self.cells.len() && (#[trigger] self.cells[i]).cell.is_parked
                ==> self.parked.contains(i as usize)
        &&& forall|i: int|
            0 <= i < self.cells.len() && !(#[trigger] self.cells[i]).cell.is_parked
                ==> self.cells[i].cell.task is None
    }

    /// The number of senders is the number of cells with a live sender,
    /// within the limit; when no sender is left, the stream has been
    /// terminated.
    pub open spec fn senders_wf(self) -> bool {
        &&& self.num_senders == owned_count(self.cells)
        &&& self.num_senders <= spec_max_senders(self.buffer)
        &&& self.num_senders == 0 ==> self.terminated
    }

    /// While a bounded channel is open, every message beyond the buffer is
    /// matched by a parked sender; and every parked sender is matched by a
    /// value in the queue.
    pub open spec fn capacity_wf(self) -> bool {
        &&& match self.buffer {
            Some(b) => b < MAX_BUFFER && (self.state.is_open ==> self.messages.len() <= b
                + self.parked.len()),
            None => true,
        }
        &&& self.parked.len() <= num_values(self.messages)
    }

    /// A receiver that has been signalled holds no waker.
    pub open spec fn recv_wf(self) -> bool {
        self.recv_task.unparked ==> self.recv_task.task is None
    }

    /// The invariant of the shared state.
    pub open spec fn wf(self) -> bool {
        &&& self.counts_wf()
        &&& self.sentinel_wf()
        &&& self.parked_wf()
        &&& self.senders_wf()
        &&& self.capacity_wf()
        &&& self.recv_wf()
    }

    /// Whether every sender handle that belongs to `self` belongs to
    /// `next` as well.
    pub open spec fn keeps_senders(self, next: Self) -> bool {
        forall|tx: SenderView| #[trigger] self.attached(tx) ==> next.attached(tx)
    }

    /// Whether every sender handle but `tx` that belongs to `self` belongs
    /// to `next` as well.
    pub open spec fn keeps_other_senders(self, next: Self, tx: SenderView) -> bool {
        forall|other: SenderView|
            #[trigger] self.attached(other) && other.cell != tx.cell ==> next.attached(other)
    }

    /// Whether a sender handle belongs to a live sender of this channel.
    pub open spec fn attached(self, tx: SenderView) -> bool {
        &&& tx.cell < self.cells.len()
        &&& self.cells[tx.cell as int].owned
        &&& self.cells[tx.cell as int].cell.is_parked ==> tx.maybe_parked
    }

    /// Whether the sender is free to send: it does not wait in the queue
    /// of parked senders.
    pub open spec fn ready(self, tx: SenderView) -> bool {
        !(tx.maybe_parked && self.cells[tx.cell as int].cell.is_parked)
    }

    /// A sender tells the receiver that the message queue has grown. The
    /// first signal since the receiver last looked takes the receiver's
    /// waker out of its slot.
    pub open spec fn signal(self) -> Self {
        if self.recv_task.unparked {
            self
        } else {
            InnerView {
                recv_task: ReceiverTask { unparked: true, task: None },
                wakers: self.wakers + waker_seq(self.recv_task.task),
                ..self
            }
        }
    }

    /// One more entry is accounted for; with `close`, the channel is
    /// closed in the same step.
    pub open spec fn reserve(self, close: bool) -> Self {
        InnerView {
            state: State {
                is_open: self.state.is_open && !close,
                num_messages: (self.state.num_messages + 1) as usize,
            },
            ..self
        }
    }

    /// One entry less is accounted for.
    pub open spec fn release(self) -> Self {
        InnerView {
            state: State {
                is_open: self.state.is_open,
                num_messages: (self.state.num_messages - 1) as usize,
            },
            ..self
        }
    }

    /// Whether the count has gone beyond the buffer, so that the sender
    /// who raised it has to park.
    pub open spec fn over_buffer(self) -> bool {
        match self.buffer {
            Some(b) => self.state.num_messages > b,
            None => false,
        }
    }

    /// An entry joins the message queue and the receiver is signalled.
    pub open spec fn push_and_signal(self, msg: Option<T>) -> Self {
        (InnerView { messages: self.messages.push(msg), ..self }).signal()
    }

    /// The cell `id` is cleared and its waker is handed out.
    pub open spec fn notify(self, id: usize) -> Self {
        InnerView {
            cells: self.cells.update(id as int, cleared(self.cells[id as int])),
            wakers: self.wakers + waker_seq(self.cells[id as int].cell.task),
            ..self
        }
    }

    /// The sender that has waited longest, if any, is let go.
    pub open spec fn unpark_one(self) -> Self {
        if self.parked.len() == 0 {
            self
        } else {
            InnerView { parked: self.parked.drop_first(), ..self.notify(self.parked[0]) }
        }
    }

    /// All parked senders are let go, in the order in which they parked.
    pub open spec fn unpark_all(self) -> Self
        decreases self.parked.len(),
    {
        if self.parked.len() == 0 {
            self
        } else {
            self.unpark_one().unpark_all()
        }
    }

    /// The oldest entry leaves the message queue: then one parked sender
    /// is let go, then the count goes down.
    pub open spec fn receive(self) -> Self {
        (InnerView { messages: self.messages.drop_first(), ..self }).unpark_one().release()
    }

    /// All entries leave the message queue, one after the other.
    pub open spec fn receive_all(self) -> Self
        decreases self.messages.len(),
    {
        if self.messages.len() == 0 {
            self
        } else {
            self.receive().receive_all()
        }
    }

    /// The `n` oldest entries leave the message queue, one after the
    /// other.
    pub open spec fn receive_n(self, n: nat) -> Self
        decreases n,
    {
        if n == 0 {
            self
        } else {
            self.receive().receive_n((n - 1) as nat)
        }
    }

    /// The stream is terminated from the sending side `n` times.
    pub open spec fn terminate_n(self, n: nat) -> Self
        decreases n,
    {
        if n == 0 {
            self
        } else {
            self.terminate().terminate_n((n - 1) as nat)
        }
    }

    /// Whether the channel is closed and no sender is parked: the state
    /// that the receiver's `close` leaves.
    pub open spec fn shut(self) -> bool {
        !self.state.is_open && self.parked.len() == 0
    }

    /// What the receiver gets when it looks for the next entry.
    pub open spec fn next_message(self) -> (Self, Poll<Option<T>>) {
        if self.messages.len() == 0 {
            (self, Poll::Pending)
        } else {
            (self.receive(), Poll::Ready(self.messages[0]))
        }
    }

    /// Whether the receiver is at the end of the stream: the channel is
    /// closed and nothing is accounted for.
    pub open spec fn drained(self) -> bool {
        !self.state.is_open && self.state.num_messages == 0
    }

    /// The receiver tries to park with the waker `lw`.
    pub open spec fn try_park(self, lw: Waker) -> (Self, TryPark) {
        if self.recv_task.unparked {
            (
                InnerView {
                    recv_task: ReceiverTask { unparked: false, task: self.recv_task.task },
                    ..self
                },
                TryPark::NotEmpty,
            )
        } else if self.drained() {
            (self, TryPark::Closed)
        } else {
            (
                InnerView { recv_task: ReceiverTask { unparked: false, task: Some(lw) }, ..self },
                TryPark::Parked,
            )
        }
    }

    /// The receiver polls for the next entry with the waker `lw`.
    pub open spec fn poll_next(self, lw: Waker) -> (Self, Poll<Option<T>>) {
        if self.messages.len() > 0 {
            self.next_message()
        } else {
            let looked = InnerView {
                recv_task: ReceiverTask { unparked: false, task: self.recv_task.task },
                ..self
            };
            if self.drained() {
                (looked, Poll::Ready(None))
            } else {
                (
                    InnerView {
                        recv_task: ReceiverTask { unparked: false, task: Some(lw) },
                        ..self
                    },
                    Poll::Pending,
                )
            }
        }
    }

    /// The receiver looks for the next entry without parking.
    pub open spec fn try_next(self) -> (Self, Result<Option<T>, TryRecvError>) {
        if self.messages.len() > 0 {
            (self.receive(), Ok(self.messages[0]))
        } else if self.drained() {
            (self, Ok(None))
        } else {
            (self, Err(TryRecvError { _inner: () }))
        }
    }

    /// The receiver closes the channel: no value is accepted any more, and
    /// all parked senders are let go.
    pub open spec fn close(self) -> Self {
        (InnerView {
            state: State { is_open: false, num_messages: self.state.num_messages },
            ..self
        }).unpark_all()
    }

    /// The receiver goes away: the channel is closed and emptied.
    pub open spec fn drop_receiver(self) -> Self {
        self.close().receive_all()
    }

    /// A sender looks whether it still waits. If it does, the waker `lw`
    /// replaces the one in its cell.
    pub open spec fn poll_unparked(self, tx: SenderView, lw: Option<Waker>) -> (
        Self,
        SenderView,
        Poll<()>,
    ) {
        if !tx.maybe_parked {
            (self, tx, Poll::Ready(()))
        } else if !self.cells[tx.cell as int].cell.is_parked {
            (self, SenderView { cell: tx.cell, maybe_parked: false }, Poll::Ready(()))
        } else {
            (
                InnerView {
                    cells: self.cells.update(
                        tx.cell as int,
                        Slot {
                            cell: SenderTask { task: lw, is_parked: true },
                            owned: self.cells[tx.cell as int].owned,
                        },
                    ),
                    ..self
                },
                tx,
                Poll::Pending,
            )
        }
    }

    /// A sender parks: its cell takes the waker `lw`, and the cell joins
    /// the queue of parked senders.
    pub open spec fn park(self, tx: SenderView, lw: Option<Waker>) -> (Self, SenderView) {
        (
            InnerView {
                cells: self.cells.update(
                    tx.cell as int,
                    Slot {
                        cell: SenderTask { task: lw, is_parked: true },
                        owned: self.cells[tx.cell as int].owned,
                    },
                ),
                parked: self.parked.push(tx.cell),
                ..self
            },
            SenderView { cell: tx.cell, maybe_parked: self.state.is_open },
        )
    }

    /// A sender that is free to send sends a value.
    pub open spec fn do_send(self, tx: SenderView, lw: Option<Waker>, msg: T) -> (
        Self,
        SenderView,
        Result<(), TrySendError<T>>,
    ) {
        if !self.state.is_open {
            (self, tx, Err(disconnected(msg)))
        } else {
            let reserved = self.reserve(false);
            let (parked, tx2) = if reserved.over_buffer() {
                reserved.park(tx, lw)
            } else {
                (reserved, tx)
            };
            (parked.push_and_signal(Some(msg)), tx2, Ok(()))
        }
    }

    /// A sender tries to send a value.
    pub open spec fn try_send(self, tx: SenderView, msg: T) -> (
        Self,
        SenderView,
        Result<(), TrySendError<T>>,
    ) {
        let (looked, tx1, ready) = self.poll_unparked(tx, None);
        if ready is Pending {
            (looked, tx1, Err(full(msg)))
        } else {
            looked.do_send(tx1, None, msg)
        }
    }

    /// A sender asks whether it may send, and leaves the waker `lw` in
    /// case it may not.
    pub open spec fn poll_ready(self, tx: SenderView, lw: Waker) -> (
        Self,
        SenderView,
        Poll<Result<(), SendError>>,
    ) {
        if !self.state.is_open {
            (self, tx, Poll::Ready(Err(SendError { kind: SendErrorKind::Disconnected })))
        } else {
            let (looked, tx1, ready) = self.poll_unparked(tx, Some(lw));
            (
                looked,
                tx1,
                match ready {
                    Poll::Ready(_) => Poll::Ready(Ok(())),
                    Poll::Pending => Poll::Pending,
                },
            )
        }
    }

    /// The stream is terminated from the sending side: the sentinel is
    /// enqueued, once in the life of the channel, whether or not the
    /// channel is still open, and the channel is closed.
    pub open spec fn terminate(self) -> Self {
        if self.terminated {
            self
        } else {
            (InnerView { terminated: true, ..self.reserve(true) }).push_and_signal(None)
        }
    }

    /// A value is sent without regard to the buffer.
    pub open spec fn send_unbounded(self, msg: T) -> (Self, Result<(), TrySendError<T>>) {
        if !self.state.is_open {
            (self, Err(disconnected(msg)))
        } else {
            (self.reserve(false).push_and_signal(Some(msg)), Ok(()))
        }
    }

    /// What a sender of an unbounded channel learns when it asks whether it
    /// may send.
    pub open spec fn poll_ready_unbounded(self) -> Poll<Result<(), SendError>> {
        if self.state.is_open {
            Poll::Ready(Ok(()))
        } else {
            Poll::Ready(Err(SendError { kind: SendErrorKind::Disconnected }))
        }
    }

    /// A new sender joins: it takes the first free cell, or a new one.
    pub open spec fn add_sender(self) -> (Self, SenderView) {
        let id = first_free(self.cells, 0);
        (
            InnerView {
                cells: if id < self.cells.len() {
                    self.cells.update(id as int, fresh_slot())
                } else {
                    self.cells.push(fresh_slot())
                },
                num_senders: (self.num_senders + 1) as usize,
                ..self
            },
            SenderView { cell: id as usize, maybe_parked: false },
        )
    }

    /// A sender goes away. The last one to go terminates the stream.
    pub open spec fn drop_sender(self, tx: SenderView) -> Self {
        let left = InnerView {
            cells: self.cells.update(
                tx.cell as int,
                Slot { cell: self.cells[tx.cell as int].cell, owned: false },
            ),
            num_senders: (self.num_senders - 1) as usize,
            ..self
        };
        if self.num_senders == 1 {
            left.terminate()
        } else {
            left
        }
    }
}

/// One operation of a handle of a channel, with its arguments.
pub enum Op<T> {
    /// `Sender::try_send` and `Sender::start_send`.
    TrySend(SenderView, T),
    /// `Sender::poll_ready`.
    PollReady(SenderView, Waker),
    /// `UnboundedSender::unbounded_send` and `UnboundedSender::start_send`.
    SendUnbounded(T),
    /// `close_channel` of either kind of sender.
    CloseChannel,
    /// `clone` of either kind of sender.
    AddSender,
    /// `drop` of either kind of sender.
    DropSender(SenderView),
    /// `poll_next` of either kind of receiver.
    PollNext(Waker),
    /// `try_next` of either kind of receiver.
    TryNext,
    /// `close` of either kind of receiver.
    Close,
    /// `drop` of either kind of receiver.
    DropReceiver,
    /// `Inner::take_wakers`.
    TakeWakers,
}

impl<T> InnerView<T> {
    /// Whether the operation may be called on this state: what its
    /// `requires` asks beyond the invariant.
    pub open spec fn admits(self, op: Op<T>) -> bool {
        match op {
            Op::TrySend(tx, _) => self.attached(tx) && self.state.num_messages < MAX_CAPACITY,
            Op::PollReady(tx, _) => self.attached(tx),
            Op::SendUnbounded(_) => self.buffer is None && self.state.num_messages
                < MAX_CAPACITY,
            Op::CloseChannel => self.terminated || self.state.num_messages < MAX_CAPACITY,
            Op::AddSender => self.num_senders < spec_max_senders(self.buffer),
            Op::DropSender(tx) => self.attached(tx) && (self.num_senders == 1 && !self.terminated
                ==> self.state.num_messages < MAX_CAPACITY),
            _ => true,
        }
    }

    /// The state that the operation leaves.
    pub open spec fn apply(self, op: Op<T>) -> Self {
        match op {
            Op::TrySend(tx, msg) => self.try_send(tx, msg).0,
            Op::PollReady(tx, lw) => self.poll_ready(tx, lw).0,
            Op::SendUnbounded(msg) => self.send_unbounded(msg).0,
            Op::CloseChannel => self.terminate(),
            Op::AddSender => self.add_sender().0,
            Op::DropSender(tx) => self.drop_sender(tx),
            Op::PollNext(lw) => self.poll_next(lw).0,
            Op::TryNext => self.try_next().0,
            Op::Close => self.close(),
            Op::DropReceiver => self.drop_receiver(),
            Op::TakeWakers => InnerView { wakers: Seq::empty(), ..self },
        }
    }

    /// Whether the operations may be called one after the other, starting
    /// on this state.
    pub open spec fn admits_all(self, ops: Seq<Op<T>>) -> bool
        decreases ops.len(),
    {
        ops.len() > 0 ==> self.admits(ops[0]) && self.apply(ops[0]).admits_all(ops.drop_first())
    }

    /// The state that the operations leave, called one after the other.
    pub open spec fn run(self, ops: Seq<Op<T>>) -> Self
        decreases ops.len(),
    {
        if ops.len() == 0 {
            self
        } else {
            self.apply(ops[0]).run(ops.drop_first())
        }
    }

    /// Whether every parked sender is alive.
    pub open spec fn parked_alive(self) -> bool {
        forall|k: int| 0 <= k < self.parked.len() ==> self.cells[(#[trigger] self.parked[k]) as int].owned
    }

    /// Whether the operation leaves every queued value with a sender to
    /// account for it: it does unless it drops a sender that is parked, or
    /// a sender of a channel that is closed.
    pub open spec fn spares_slots(self, op: Op<T>) -> bool {
        op matches Op::DropSender(tx) ==> !self.cells[tx.cell as int].cell.is_parked
            && self.state.is_open
    }

    /// Whether none of the operations, called one after the other, drops
    /// a sender that is parked or a sender of a closed channel.
    pub open spec fn spares_slots_all(self, ops: Seq<Op<T>>) -> bool
        decreases ops.len(),
    {
        ops.len() > 0 ==> self.spares_slots(ops[0]) && self.apply(ops[0]).spares_slots_all(
            ops.drop_first(),
        )
    }

    /// The capacity of a channel with the buffer `b`: the count of
    /// messages is within the buffer plus the number of senders, and one
    /// more for the sentinel once the stream has been terminated.
    pub open spec fn within_capacity(self, b: usize) -> bool {
        self.state.num_messages <= b + self.num_senders + if self.terminated {
            1int
        } else {
            0int
        }
    }
}

} // verus!
