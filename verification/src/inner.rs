//! The block of state that all handles of one channel work on.

use vstd::prelude::*;
use std::task::Waker;
use crate::model::fresh_slot;
use crate::model::spec_max_senders;
use crate::model::InnerView;
use crate::queue::Queue;
use crate::state::decode_state;
use crate::state::lemma_init_state;
use crate::state::spec_decode;
use crate::state::INIT_STATE;
use crate::state::MAX_BUFFER;
use crate::state::MAX_CAPACITY;
use crate::task::ReceiverTask;
use crate::task::SenderTask;
use crate::task::Slot;

verus! {

/// The shared state of a channel. The handles of the channel do not hold
/// it: whoever holds the handles holds the block too, and passes it to
/// each operation.
#[derive(Debug)]
pub struct Inner<T> {
    /// Max buffer size of the channel; `None` if the channel is unbounded.
    pub(crate) buffer: Option<usize>,
    /// The state word: the open flag and the number of queued messages.
    pub(crate) state: usize,
    /// The messages on their way to the receiver.
    pub(crate) message_queue: Queue<Option<T>>,
    /// The parked senders, by the index of their wake cells.
    pub(crate) parked_queue: Queue<usize>,
    /// Number of senders in existence.
    pub(crate) num_senders: usize,
    /// The wake slot of the receiver.
    pub(crate) recv_task: ReceiverTask,
    /// The wake cells of the senders.
    pub(crate) cells: Vec<Slot>,
    /// Whether the termination sentinel has been enqueued.
    pub(crate) terminated: bool,
    /// The wakers to invoke once the block is released.
    pub(crate) wakers: Vec<Waker>,
}

impl<T> View for Inner<T> {
    type V = InnerView<T>;

    open(crate) spec fn view(&self) -> InnerView<T> {
        InnerView {
            buffer: self.buffer,
            state: spec_decode(self.state),
            messages: self.message_queue@,
            parked: self.parked_queue@,
            num_senders: self.num_senders,
            recv_task: self.recv_task,
            cells: self.cells@,
            terminated: self.terminated,
            wakers: self.wakers@,
        }
    }
}

impl<T> Inner<T> {
    /// The invariant of the block.
    pub open spec fn wf(&self) -> bool {
        self@.wf()
    }

    /// The block of a new channel, with the cell of its first sender.
    pub fn new(buffer: Option<usize>) -> (inner: Self)
        requires
            buffer matches Some(b) ==> b < MAX_BUFFER,
        ensures
            inner@ == InnerView::<T>::init(buffer),
            inner.wf(),
    {
        let mut cells: Vec<Slot> = Vec::new();
        cells.push(Slot { cell: SenderTask::new(), owned: true });
        let inner = Inner {
            buffer,
            state: INIT_STATE,
            message_queue: Queue::new(),
            parked_queue: Queue::new(),
            num_senders: 1,
            recv_task: ReceiverTask { unparked: false, task: None },
            cells,
            terminated: false,
            wakers: Vec::new(),
        };
        proof {
            lemma_init_state();
            assert(inner.cells@ =~= seq![fresh_slot()]);
            crate::lemmas::lemma_init_wf::<T>(buffer);
        }
        inner
    }

    /// The buffer size that the channel was made with.
    pub fn buffer(&self) -> (b: Option<usize>)
        ensures
            b == self@.buffer,
    {
        self.buffer
    }

    /// Whether the channel still accepts values.
    pub fn is_open(&self) -> (b: bool)
        ensures
            b == self@.state.is_open,
    {
        decode_state(self.state).is_open
    }

    /// Whether the termination sentinel has been enqueued.
    pub fn is_terminated(&self) -> (b: bool)
        ensures
            b == self@.terminated,
    {
        self.terminated
    }

    /// Number of entries accounted for in the message queue.
    pub fn num_messages(&self) -> (n: usize)
        ensures
            n == self@.state.num_messages,
    {
        decode_state(self.state).num_messages
    }

    /// Number of senders in existence.
    pub fn num_senders(&self) -> (n: usize)
        ensures
            n == self@.num_senders,
    {
        self.num_senders
    }

    /// The largest number of senders that the channel can have, chosen so
    /// that the count of messages never goes beyond what the state word
    /// can track.
    pub fn max_senders(&self) -> (n: usize)
        requires
            self.wf(),
        ensures
            n == spec_max_senders(self@.buffer),
    {
        proof {
            crate::lemmas::lemma_limits();
        }
        match self.buffer {
            Some(buffer) => MAX_CAPACITY - buffer,
            None => MAX_BUFFER,
        }
    }

    /// Whether the state word can account for one more entry.
    pub fn has_room(&self) -> (b: bool)
        ensures
            b == (self@.state.num_messages < MAX_CAPACITY),
    {
        decode_state(self.state).num_messages < MAX_CAPACITY
    }

    /// Whether one more sender may join.
    pub fn can_add_sender(&self) -> (b: bool)
        requires
            self.wf(),
        ensures
            b == (self@.num_senders < spec_max_senders(self@.buffer)),
    {
        self.num_senders < self.max_senders()
    }

    /// Hands out the wakers that the operations since the last call have
    /// taken out of their cells, oldest first. They are to be invoked when
    /// the block has been released.
    pub fn take_wakers(&mut self) -> (wakers: Vec<Waker>)
        ensures
            wakers@ == old(self)@.wakers,
            final(self)@ == (InnerView { wakers: Seq::empty(), ..old(self)@ }),
            old(self).wf() ==> final(self).wf(),
    {
        let mut wakers: Vec<Waker> = Vec::new();
        std::mem::swap(&mut self.wakers, &mut wakers);
        wakers
    }
}

} // verus!
