//! The wake cells of a channel: one for the receiver and one for each
//! sender, each holding the waker of the task that waits there.

use vstd::prelude::*;
use std::task::Poll;
use std::task::Waker;

verus! {

/// `std::task::Waker`, the handle by which a waiting task is resumed. The
/// channel stores, moves and hands out wakers and never looks inside one.
#[verifier::external_type_specification]
#[verifier::external_body]
pub struct ExWaker(Waker);

/// `std::task::Poll`, the result of one step of a task: `Ready` with a
/// value, or `Pending`.
#[verifier::external_type_specification]
#[verifier::reject_recursive_types(T)]
pub struct ExPoll<T>(Poll<T>);

/// The wake cell of one sender. The sender fills it when it has to wait;
/// the receiver empties it when it lets the sender go on.
#[derive(Debug)]
pub struct SenderTask {
    /// The waker of the task that waits on the sender, if one was given.
    pub task: Option<Waker>,
    /// Whether the sender waits in the queue of parked senders.
    pub is_parked: bool,
}

/// The wake slot of the receiver.
#[derive(Debug)]
pub struct ReceiverTask {
    /// Set by a sender that has signalled since the receiver last looked.
    pub unparked: bool,
    /// The waker of the task that waits on the receiver.
    pub task: Option<Waker>,
}

/// What an attempt of the receiver to park came to.
#[derive(Clone, Copy, Debug, PartialEq, Eq, Structural)]
pub enum TryPark {
    /// The waker is stored; the receiver waits.
    Parked,
    /// The channel is closed and empty; there is nothing to wait for.
    Closed,
    /// A sender has signalled in the meantime; the receiver looks again.
    NotEmpty,
}

/// A sender's wake cell together with the mark that tells whether the
/// sender is still alive. A cell outlives its sender for as long as it
/// waits in the queue of parked senders.
#[derive(Debug)]
pub struct Slot {
    pub cell: SenderTask,
    pub owned: bool,
}

/// The wakers in an optional waker: one or none.
pub open spec fn waker_seq(task: Option<Waker>) -> Seq<Waker> {
    match task {
        Some(w) => seq![w],
        None => Seq::empty(),
    }
}

/// `Waker::wake`: wakes up the task that the waker belongs to. Nothing is
/// claimed of it: what waking does is up to whoever made the waker.
#[verifier::external_body]
fn wake(waker: Waker) {
    waker.wake()
}

/// Invokes the wakers that a channel has handed out, oldest first.
///
/// The operations of a channel do not invoke wakers themselves, because a
/// waker may run any code and the block of the channel is still in use
/// while an operation runs. They hand the wakers out through
/// `Inner::take_wakers`; whoever guards the block invokes them here after
/// releasing it.
pub fn wake_all(wakers: Vec<Waker>) {
    // Turn the list round, so that the oldest waker is the last.
    let mut newest_first = wakers;
    let mut oldest_last: Vec<Waker> = Vec::new();
    while newest_first.len() > 0
        decreases newest_first.len(),
    {
        match newest_first.pop() {
            Some(waker) => oldest_last.push(waker),
            None => {},
        }
    }
    while oldest_last.len() > 0
        decreases oldest_last.len(),
    {
        match oldest_last.pop() {
            Some(waker) => wake(waker),
            None => {},
        }
    }
}

impl SenderTask {
    /// A cell of a sender that does not wait.
    pub fn new() -> (cell: Self)
        ensures
            cell == (SenderTask { task: None, is_parked: false }),
    {
        SenderTask { task: None, is_parked: false }
    }

    /// Lets the sender go on: the cell is cleared, and the waker that it
    /// held is handed out to be invoked.
    pub fn notify(&mut self) -> (task: Option<Waker>)
        ensures
            *final(self) == (SenderTask { task: None, is_parked: false }),
            task == old(self).task,
    {
        self.is_parked = false;
        self.task.take()
    }
}

impl Slot {
    /// Whether nothing refers to the cell any more, so that a new sender
    /// can take it.
    pub open spec fn is_free(self) -> bool {
        !self.owned && !self.cell.is_parked
    }
}

} // verus!
