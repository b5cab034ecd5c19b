//! What holds of every channel, whatever its handles do.

use vstd::prelude::*;
use std::task::Poll;
use std::task::Waker;
use crate::error::SendError;
use crate::error::SendErrorKind;
use crate::lemmas::lemma_close_wf;
use crate::lemmas::lemma_do_send_wf;
use crate::lemmas::lemma_poll_unparked_wf;
use crate::lemmas::lemma_receive_wf;
use crate::lemmas::lemma_terminate_wf;
use crate::lemmas::lemma_unpark_one;
use crate::model::disconnected;
use crate::model::full;
use crate::model::num_values;
use crate::model::owned_count;
use crate::model::first_free;
use crate::model::InnerView;
use crate::model::Op;
use crate::model::SenderView;
use crate::state::MAX_CAPACITY;
use crate::task::Slot;

verus! {

/// Distinct cells with live senders are no more than the live senders.
pub proof fn lemma_distinct_owned(cells: Seq<Slot>, ids: Seq<usize>)
    requires
        ids.no_duplicates(),
        forall|k: int|
            0 <= k < ids.len() ==> (#[trigger] ids[k]) < cells.len() && cells[ids[k] as int].owned,
    ensures
        ids.len() <= owned_count(cells),
    decreases cells.len(),
{
    if cells.len() == 0 {
        if ids.len() > 0 {
            assert(ids[0] < cells.len());
        }
    } else {
        let last = cells.len() - 1;
        let rest = cells.drop_last();
        if exists|p: int| 0 <= p < ids.len() && ids[p] == last {
            let p = choose|p: int| 0 <= p < ids.len() && ids[p] == last;
            let others = ids.remove(p);
            assert forall|k: int| 0 <= k < others.len() implies (#[trigger] others[k]) < rest.len()
                && rest[others[k] as int].owned by {
                if k < p {
                    assert(others[k] == ids[k]);
                    assert(ids[k] != ids[p]);
                } else {
                    assert(others[k] == ids[k + 1]);
                    assert(ids[k + 1] != ids[p]);
                }
            }
            assert(others.no_duplicates()) by {
                assert forall|i: int, j: int|
                    0 <= i < others.len() && 0 <= j < others.len() && i != j implies others[i]
                    != others[j] by {
                    let i2 = if i < p {
                        i
                    } else {
                        i + 1
                    };
                    let j2 = if j < p {
                        j
                    } else {
                        j + 1
                    };
                    assert(others[i] == ids[i2]);
                    assert(others[j] == ids[j2]);
                }
            }
            lemma_distinct_owned(rest, others);
            assert(ids[p] < cells.len() && cells[ids[p] as int].owned);
        } else {
            assert forall|k: int| 0 <= k < ids.len() implies (#[trigger] ids[k]) < rest.len()
                && rest[ids[k] as int].owned by {
                assert(ids[k] < cells.len());
                assert(ids[k] != last);
            }
            lemma_distinct_owned(rest, ids);
        }
    }
}

/// The capacity of a bounded channel. While the channel is open, every
/// message beyond the buffer is matched by a sender that is parked; so
/// as long as the parked senders are all alive, the count of messages
/// stays within the buffer plus the number of senders.
pub proof fn law_capacity<T>(s: InnerView<T>, b: usize)
    requires
        s.wf(),
        s.buffer == Some(b),
        s.state.is_open,
    ensures
        s.state.num_messages <= b + s.parked.len(),
        (forall|k: int| 0 <= k < s.parked.len() ==> s.cells[(#[trigger] s.parked[k]) as int].owned)
            ==> s.state.num_messages <= b + s.num_senders,
{
    if forall|k: int| 0 <= k < s.parked.len() ==> s.cells[(#[trigger] s.parked[k]) as int].owned {
        lemma_distinct_owned(s.cells, s.parked);
    }
}

/// A closed channel grows by the termination sentinel at most: a send
/// leaves the count as it is, and only the first termination adds one.
pub proof fn law_closed_capacity<T>(s: InnerView<T>, tx: SenderView, msg: T)
    requires
        s.wf(),
        s.attached(tx),
        !s.state.is_open,
        s.state.num_messages < MAX_CAPACITY,
    ensures
        s.try_send(tx, msg).0.state == s.state,
        s.try_send(tx, msg).0.messages == s.messages,
        s.send_unbounded(msg).0 == s,
        s.terminate().state.num_messages == s.state.num_messages + if s.terminated {
            0int
        } else {
            1int
        },
        s.terminate().terminate() == s.terminate(),
{
}

/// Taking `n` entries out of the message queue keeps the invariant and
/// leaves the entries behind them, in their order.
pub proof fn lemma_receive_n<T>(s: InnerView<T>, n: nat)
    requires
        s.wf(),
        n <= s.messages.len(),
    ensures
        s.receive_n(n).wf(),
        s.receive_n(n).messages == s.messages.skip(n as int),
        s.receive_n(n).state.is_open == s.state.is_open,
        s.receive_n(n).terminated == s.terminated,
        s.receive_n(n).buffer == s.buffer,
        s.receive_n(n).num_senders == s.num_senders,
        s.keeps_senders(s.receive_n(n)),
    decreases n,
{
    if n == 0 {
        assert(s.messages.skip(0) =~= s.messages);
    } else {
        lemma_receive_wf(s);
        lemma_receive_n(s.receive(), (n - 1) as nat);
        assert(s.messages.drop_first().skip(n - 1) =~= s.messages.skip(n as int));
        assert forall|tx: SenderView| #[trigger] s.attached(tx) implies s.receive_n(n).attached(
            tx,
        ) by {
            assert(s.receive().attached(tx));
        }
    }
}

/// The order of delivery. The receiver gets the entries of the message
/// queue in the order of the queue: the entry at place `i` is what the
/// receiver gets after `i` others, so before the entry at any later
/// place `j`.
pub proof fn law_delivery_in_queue_order<T>(s: InnerView<T>, i: nat, j: nat)
    requires
        s.wf(),
        i < j < s.messages.len(),
    ensures
        s.receive_n(i).try_next().1 == Ok::<Option<T>, crate::error::TryRecvError>(
            s.messages[i as int],
        ),
        s.receive_n(j).try_next().1 == Ok::<Option<T>, crate::error::TryRecvError>(
            s.messages[j as int],
        ),
        s.receive_n(i).try_next().0 == s.receive_n(i + 1),
{
    lemma_receive_n(s, i);
    lemma_receive_n(s, j);
    lemma_receive_n_step(s, i);
}

/// Taking one entry more is one more step of the receiver.
pub proof fn lemma_receive_n_step<T>(s: InnerView<T>, n: nat)
    ensures
        s.receive_n(n + 1) == s.receive_n(n).receive(),
    decreases n,
{
    if n == 0 {
        assert(s.receive_n(1) == s.receive().receive_n(0));
    } else {
        lemma_receive_n_step(s.receive(), (n - 1) as nat);
        assert(s.receive_n(n + 1) == s.receive().receive_n(n));
    }
}

/// What becomes of a value that a sender tries to send. On an open
/// channel a sender that is not parked succeeds. A value that was
/// accepted stands last in the message queue, so that the values of one
/// sender keep their order, and it is what the receiver gets once the
/// entries before it are taken. A value that was turned down comes back
/// in the error, and the queue is as before: `Full` for a parked sender,
/// `Disconnected` for a closed channel.
pub proof fn law_no_value_lost<T>(s: InnerView<T>, tx: SenderView, msg: T)
    requires
        s.wf(),
        s.attached(tx),
        s.state.num_messages < MAX_CAPACITY,
    ensures
        s.ready(tx) && s.state.is_open ==> s.try_send(tx, msg).2 is Ok,
        !s.ready(tx) ==> s.try_send(tx, msg).2 == Err::<(), _>(full(msg)),
        s.ready(tx) && !s.state.is_open ==> s.try_send(tx, msg).2 == Err::<(), _>(
            disconnected(msg),
        ),
        s.try_send(tx, msg).2 is Ok ==> {
            &&& s.try_send(tx, msg).0.messages == s.messages.push(Some(msg))
            &&& s.try_send(tx, msg).0.receive_n(s.messages.len()).try_next().1 == Ok::<
                Option<T>,
                crate::error::TryRecvError,
            >(Some(msg))
        },
        s.try_send(tx, msg).2 is Err ==> s.try_send(tx, msg).0.messages == s.messages,
{
    lemma_poll_unparked_wf(s, tx, None);
    let (looked, tx1, ready) = s.poll_unparked(tx, None);
    if ready is Ready {
        lemma_do_send_wf(looked, tx1, None, msg);
        if s.state.is_open {
            let s1 = s.try_send(tx, msg).0;
            assert(s1.messages =~= s.messages.push(Some(msg)));
            lemma_receive_n(s1, s.messages.len());
            assert(s1.messages.skip(s.messages.len() as int)[0] == Some(msg));
        }
    }
}

/// The end of the stream. Once the stream has been terminated, as it is
/// when the last sender has gone, the receiver gets the values that are
/// still queued, then the sentinel once, if it has not had it yet, and
/// from then on the end of the stream at every poll.
pub proof fn law_terminated_stream<T>(s: InnerView<T>, lw: Waker, n: nat)
    requires
        s.wf(),
        s.terminated,
        n <= s.messages.len(),
    ensures
        n + 1 < s.messages.len() ==> s.receive_n(n).poll_next(lw).1 == Poll::Ready(
            s.messages[n as int],
        ) && s.messages[n as int] is Some,
        n + 1 == s.messages.len() ==> s.receive_n(n).poll_next(lw).1 == Poll::<
            Option<T>,
        >::Ready(None),
        n == s.messages.len() ==> {
            &&& s.receive_n(n).poll_next(lw).1 == Poll::<Option<T>>::Ready(None)
            &&& s.receive_n(n).poll_next(lw).0.messages.len() == 0
            &&& s.receive_n(n).poll_next(lw).0.terminated
            &&& s.receive_n(n).poll_next(lw).0.wf()
        },
{
    lemma_receive_n(s, n);
    let e = s.receive_n(n);
    if n < s.messages.len() {
        assert(e.messages[0] == s.messages[n as int]);
        if n + 1 < s.messages.len() {
            if s.messages[n as int] is None {
                assert(n == s.messages.len() - 1);
            }
        } else {
            assert(s.messages.last() is None);
        }
    }
}

/// The last sender to go terminates the stream: the channel is closed,
/// and the sentinel stands behind the values that are queued, unless it
/// has been enqueued before.
pub proof fn law_last_sender_terminates<T>(s: InnerView<T>, tx: SenderView)
    requires
        s.wf(),
        s.attached(tx),
        s.num_senders == 1,
        !s.terminated ==> s.state.num_messages < MAX_CAPACITY,
    ensures
        s.drop_sender(tx).terminated,
        s.drop_sender(tx).num_senders == 0,
        !s.drop_sender(tx).state.is_open,
        !s.terminated ==> s.drop_sender(tx).messages == s.messages.push(None) && forall|i: int|
            0 <= i < s.messages.len() ==> (#[trigger] s.messages[i]) is Some,
        s.terminated ==> s.drop_sender(tx).messages == s.messages,
{
    crate::lemmas::lemma_drop_sender_wf(s, tx);
    if !s.terminated {
        assert forall|i: int| 0 <= i < s.messages.len() implies (#[trigger] s.messages[i]) is Some by {}
    }
}

/// Taking `n` entries out of the message queue lets the `n` senders go
/// that have been parked longest, and leaves the cells of all others as
/// they are.
pub proof fn lemma_receive_n_parked<T>(s: InnerView<T>, n: nat)
    requires
        s.wf(),
        n <= s.parked.len(),
    ensures
        n <= s.messages.len(),
        s.receive_n(n).parked == s.parked.skip(n as int),
        s.receive_n(n).cells.len() == s.cells.len(),
        forall|i: int|
            0 <= i < s.cells.len() && !s.parked.take(n as int).contains(i as usize)
                ==> #[trigger] s.receive_n(n).cells[i] == s.cells[i],
    decreases n,
{
    if n == 0 {
        assert(s.parked.skip(0) =~= s.parked);
    } else {
        lemma_receive_wf(s);
        let popped = InnerView { messages: s.messages.drop_first(), ..s };
        lemma_unpark_one(popped);
        let r = s.receive();
        assert(r.parked =~= s.parked.drop_first());
        lemma_receive_n_parked(r, (n - 1) as nat);
        assert(s.parked.drop_first().skip(n - 1) =~= s.parked.skip(n as int));
        assert forall|i: int|
            0 <= i < s.cells.len() && !s.parked.take(n as int).contains(
                i as usize,
            ) implies #[trigger] s.receive_n(n).cells[i] == s.cells[i] by {
            assert(s.parked.take(n as int)[0] == s.parked[0]);
            assert(i != s.parked[0]);
            let taken = r.parked.take(n - 1);
            if taken.contains(i as usize) {
                let k = choose|k: int| 0 <= k < taken.len() && taken[k] == i as usize;
                assert(s.parked.take(n as int)[k + 1] == i as usize);
            }
            assert(r.cells[i] == s.cells[i]);
        }
    }
}

/// A sender that is told to wait is parked: its cell stands in the queue
/// of parked senders and holds the waker that the sender has left.
pub proof fn law_pending_sender_is_parked<T>(s: InnerView<T>, tx: SenderView, w: Waker)
    requires
        s.wf(),
        s.attached(tx),
        s.poll_ready(tx, w).2 is Pending,
    ensures
        s.poll_ready(tx, w).0.wf(),
        s.poll_ready(tx, w).0.attached(s.poll_ready(tx, w).1),
        s.poll_ready(tx, w).0.parked == s.parked,
        s.poll_ready(tx, w).0.parked.contains(tx.cell),
        s.poll_ready(tx, w).0.cells[tx.cell as int].cell == (crate::task::SenderTask {
            task: Some(w),
            is_parked: true,
        }),
        s.poll_ready(tx, w).0.messages == s.messages,
        s.state.is_open,
{
    lemma_poll_unparked_wf(s, tx, Some(w));
}

/// The wake-up of a parked sender. A sender that stands at place `k` in
/// the queue of parked senders, with the waker `w` in its cell, is let go
/// when the receiver takes its next `k + 1` entries, and the message
/// queue holds as many values: the cell is cleared then, and `w` is
/// handed out to be invoked, behind the wakers that were handed out
/// before.
pub proof fn law_parked_sender_is_woken<T>(s: InnerView<T>, k: nat, w: Waker)
    requires
        s.wf(),
        k < s.parked.len(),
        s.cells[s.parked[k as int] as int].cell.task == Some(w),
    ensures
        k + 1 <= num_values(s.messages),
        s.receive_n(k + 1).wakers == s.receive_n(k).wakers.push(w),
        s.receive_n(k + 1).cells[s.parked[k as int] as int].cell == (crate::task::SenderTask {
            task: None,
            is_parked: false,
        }),
        !s.receive_n(k + 1).parked.contains(s.parked[k as int]),
{
    let id = s.parked[k as int];
    lemma_receive_n_parked(s, k);
    lemma_receive_n(s, k);
    lemma_receive_n_step(s, k);
    let e = s.receive_n(k);
    assert(e.parked[0] == id);
    assert(!s.parked.take(k as int).contains(id)) by {
        let taken = s.parked.take(k as int);
        if taken.contains(id) {
            let j = choose|j: int| 0 <= j < taken.len() && taken[j] == id;
            assert(s.parked[j] == s.parked[k as int]);
        }
    }
    assert(id < s.cells.len());
    assert(e.cells[id as int] == s.cells[id as int]);
    lemma_receive_wf(e);
    let popped = InnerView { messages: e.messages.drop_first(), ..e };
    lemma_unpark_one(popped);
    let e2 = e.receive();
    assert(e2.wakers =~= e.wakers.push(w));
    if e2.parked.contains(id) {
        let j = choose|j: int| 0 <= j < e2.parked.len() && e2.parked[j] == id;
        assert(e.parked[j + 1] == e.parked[0]);
    }
}

/// Closing from the sending side is idempotent: however often the stream
/// is terminated, the sentinel is enqueued once.
pub proof fn law_close_channel_idempotent<T>(s: InnerView<T>, n: nat)
    requires
        s.wf(),
        n >= 1,
        !s.terminated ==> s.state.num_messages < MAX_CAPACITY,
    ensures
        s.terminate().wf(),
        s.terminate_n(n) == s.terminate(),
        s.terminate().terminated,
        !s.terminate().state.is_open,
        !s.terminated ==> s.terminate().messages == s.messages.push(None),
        s.terminated ==> s.terminate() == s,
    decreases n,
{
    lemma_terminate_wf(s);
    if n > 1 {
        law_close_channel_idempotent(s.terminate(), (n - 1) as nat);
    } else {
        assert(s.terminate().terminate_n(0) == s.terminate());
    }
    if !s.terminated {
        assert(s.terminate().messages =~= s.messages.push(None));
    }
}

/// No value enters a channel that the receiver has closed: every sender
/// is turned down with `Disconnected`, and the value comes back.
pub proof fn law_receiver_close_disconnects<T>(s: InnerView<T>, tx: SenderView, msg: T)
    requires
        s.wf(),
        s.attached(tx),
    ensures
        s.close().shut(),
        s.close().wf(),
        s.close().attached(tx),
        s.close().try_send(tx, msg).2 == Err::<(), _>(disconnected(msg)),
        s.close().try_send(tx, msg).0 == s.close(),
{
    lemma_close_wf(s);
    law_shut_is_stable(s.close(), tx, msg);
}

/// A channel that the receiver has closed stays as it is for the
/// senders: whatever the handles do, the channel stays closed and no
/// sender is parked, so every value is turned down with `Disconnected`.
pub proof fn law_shut_is_stable<T>(s: InnerView<T>, tx: SenderView, msg: T)
    requires
        s.wf(),
        s.shut(),
        s.attached(tx),
    ensures
        s.try_send(tx, msg).2 == Err::<(), _>(disconnected(msg)),
        s.try_send(tx, msg).0 == s,
        s.send_unbounded(msg) == (s, Err::<(), _>(disconnected(msg))),
        forall|lw: Waker|
            (#[trigger] s.poll_ready(tx, lw)).2 == Poll::Ready(
                Err::<(), _>(SendError { kind: SendErrorKind::Disconnected }),
            ) && s.poll_ready(tx, lw).0 == s,
        s.terminate().shut(),
        s.add_sender().0.shut(),
        s.drop_sender(tx).shut(),
        s.close() == s,
        s.messages.len() > 0 ==> s.receive().shut(),
        forall|lw: Waker| (#[trigger] s.poll_next(lw)).0.shut(),
        s.try_next().0.shut(),
{
    assert(!s.cells[tx.cell as int].cell.is_parked) by {
        if s.cells[tx.cell as int].cell.is_parked {
            assert(s.parked.contains(tx.cell));
        }
    }
    let shut = InnerView {
        state: crate::state::State { is_open: false, num_messages: s.state.num_messages },
        ..s
    };
    assert(shut == s);
    assert(s.unpark_all() == s);
    if s.messages.len() > 0 {
        let popped = InnerView { messages: s.messages.drop_first(), ..s };
        assert(popped.unpark_one() == popped);
    }
}

/// The open flag falls once and never rises: no operation opens a
/// closed channel.
pub proof fn law_closed_stays_closed<T>(s: InnerView<T>, tx: SenderView, msg: T, lw: Waker)
    requires
        s.wf(),
        !s.state.is_open,
        s.attached(tx),
    ensures
        !s.try_send(tx, msg).0.state.is_open,
        !s.send_unbounded(msg).0.state.is_open,
        !s.poll_ready(tx, lw).0.state.is_open,
        !s.terminate().state.is_open,
        !s.add_sender().0.state.is_open,
        !s.drop_sender(tx).state.is_open,
        !s.close().state.is_open,
        !s.poll_next(lw).0.state.is_open,
        !s.try_next().0.state.is_open,
{
    lemma_close_wf(s);
}

/// On an unbounded channel, whether a sender may send depends on the
/// open flag alone.
pub proof fn law_unbounded_poll_ready<T>(s1: InnerView<T>, s2: InnerView<T>)
    requires
        s1.state.is_open == s2.state.is_open,
    ensures
        s1.poll_ready_unbounded() == s2.poll_ready_unbounded(),
        s1.state.is_open ==> s1.poll_ready_unbounded() == Poll::Ready(Ok::<(), SendError>(())),
        !s1.state.is_open ==> s1.poll_ready_unbounded() == Poll::Ready(
            Err::<(), _>(SendError { kind: SendErrorKind::Disconnected }),
        ),
{
}

/// The guaranteed slot. A sender that was told that it may send does
/// send, whatever the count of messages is: its next `try_send` on the
/// channel as it is succeeds.
pub proof fn law_guaranteed_slot<T>(s: InnerView<T>, tx: SenderView, lw: Waker, msg: T)
    requires
        s.wf(),
        s.attached(tx),
        s.state.num_messages < MAX_CAPACITY,
        s.poll_ready(tx, lw).2 == Poll::Ready(Ok::<(), SendError>(())),
    ensures
        s.poll_ready(tx, lw).0.try_send(s.poll_ready(tx, lw).1, msg).2 is Ok,
{
    lemma_poll_unparked_wf(s, tx, Some(lw));
    let s1 = s.poll_ready(tx, lw).0;
    let tx1 = s.poll_ready(tx, lw).1;
    law_no_value_lost(s1, tx1, msg);
}

/// A channel without a buffer. Every send goes into the slot of its
/// sender: the sender parks with it, and its next send is turned down
/// with `Full` until the receiver has let it go.
pub proof fn law_zero_buffer<T>(s: InnerView<T>, tx: SenderView, first: T, second: T)
    requires
        s.wf(),
        s.buffer == Some(0usize),
        s.state.is_open,
        s.attached(tx),
        s.ready(tx),
        s.state.num_messages < MAX_CAPACITY,
    ensures
        s.try_send(tx, first).2 is Ok,
        s.try_send(tx, first).0.parked == s.parked.push(tx.cell),
        s.try_send(tx, first).0.cells[tx.cell as int].cell.is_parked,
        s.try_send(tx, first).0.try_send(s.try_send(tx, first).1, second).2 == Err::<(), _>(
            full(second),
        ),
        s.try_send(tx, first).0.try_send(s.try_send(tx, first).1, second).0.messages
            == s.messages.push(Some(first)),
{
    lemma_poll_unparked_wf(s, tx, None);
    let (looked, tx1, ready) = s.poll_unparked(tx, None);
    lemma_do_send_wf(looked, tx1, None, first);
    let s1 = s.try_send(tx, first).0;
    assert(s1.parked =~= s.parked.push(tx.cell));
    assert(s1.messages =~= s.messages.push(Some(first)));
}

/// Letting all parked senders go hands out the waker of each and keeps
/// the wakers that were handed out before.
pub proof fn lemma_unpark_all_wakes<T>(s: InnerView<T>, k: nat)
    requires
        s.parked_wf(),
        k < s.parked.len(),
    ensures
        s.unpark_all().parked.len() == 0,
        s.wakers.is_prefix_of(s.unpark_all().wakers),
        s.unpark_all().cells.len() == s.cells.len(),
        !s.unpark_all().cells[s.parked[k as int] as int].cell.is_parked,
        s.cells[s.parked[k as int] as int].cell.task matches Some(w)
            ==> s.unpark_all().wakers.contains(w),
    decreases s.parked.len(),
{
    lemma_unpark_one(s);
    let one = s.unpark_one();
    lemma_unpark_all_frame(one);
    let id = s.parked[k as int];
    assert(id < s.cells.len());
    assert(s.wakers.is_prefix_of(one.wakers));
    if k == 0 {
        if let Some(w) = s.cells[id as int].cell.task {
            assert(one.wakers[s.wakers.len() as int] == w);
            assert(s.unpark_all().wakers[s.wakers.len() as int] == w);
        }
        assert(!one.parked.contains(id)) by {
            if one.parked.contains(id) {
                let j = choose|j: int| 0 <= j < one.parked.len() && one.parked[j] == id;
                assert(s.parked[j + 1] == s.parked[0]);
            }
        }
    } else {
        assert(one.parked[k - 1] == id);
        assert(id != s.parked[0]);
        lemma_unpark_all_wakes(one, (k - 1) as nat);
    }
}

/// Letting all parked senders go leaves no sender parked, keeps the
/// wakers that were handed out before, and leaves the cells that were
/// not parked as they are.
pub proof fn lemma_unpark_all_frame<T>(s: InnerView<T>)
    requires
        s.parked_wf(),
    ensures
        s.unpark_all().parked.len() == 0,
        s.unpark_all().parked_wf(),
        s.wakers.is_prefix_of(s.unpark_all().wakers),
        s.unpark_all().cells.len() == s.cells.len(),
        forall|i: int|
            0 <= i < s.cells.len() && !s.parked.contains(i as usize)
                ==> #[trigger] s.unpark_all().cells[i] == s.cells[i],
        forall|i: int| 0 <= i < s.cells.len() ==> !(#[trigger] s.unpark_all().cells[i]).cell.is_parked,
    decreases s.parked.len(),
{
    if s.parked.len() > 0 {
        lemma_unpark_one(s);
        let one = s.unpark_one();
        lemma_unpark_all_frame(one);
        assert(s.wakers.is_prefix_of(one.wakers));
        assert forall|i: int|
            0 <= i < s.cells.len() && !s.parked.contains(
                i as usize,
            ) implies #[trigger] s.unpark_all().cells[i] == s.cells[i] by {
            assert(i != s.parked[0]);
            if one.parked.contains(i as usize) {
                let j = choose|j: int| 0 <= j < one.parked.len() && one.parked[j] == i as usize;
                assert(s.parked[j + 1] == i as usize);
            }
        }
    } else {
        assert forall|i: int| 0 <= i < s.cells.len() implies !(#[trigger] s.cells[i]).cell.is_parked by {
            if s.cells[i].cell.is_parked {
                assert(s.parked.contains(i as usize));
            }
        }
    }
}

/// Closing with parked senders. When the receiver closes the channel,
/// every parked sender is let go at once: no cell stays parked, the
/// waker in each parked cell is handed out to be invoked, and the wakers
/// that were handed out before stay.
pub proof fn law_close_wakes_parked<T>(s: InnerView<T>, k: nat)
    requires
        s.wf(),
        k < s.parked.len(),
    ensures
        s.close().parked.len() == 0,
        s.wakers.is_prefix_of(s.close().wakers),
        !s.close().cells[s.parked[k as int] as int].cell.is_parked,
        s.cells[s.parked[k as int] as int].cell.task matches Some(w) ==> s.close().wakers.contains(
            w,
        ),
{
    let shut = InnerView {
        state: crate::state::State { is_open: false, num_messages: s.state.num_messages },
        ..s
    };
    lemma_unpark_all_wakes(shut, k);
}

/// A receiver that goes away leaves nothing queued: the channel is
/// closed, no sender is parked, and every message that was on its way is
/// taken out of the queue and dropped.
pub proof fn law_drop_receiver_empties<T>(s: InnerView<T>)
    requires
        s.wf(),
    ensures
        s.drop_receiver().wf(),
        s.drop_receiver().messages.len() == 0,
        s.drop_receiver().state.num_messages == 0,
        s.drop_receiver().shut(),
{
    lemma_close_wf(s);
    crate::lemmas::lemma_receive_all_wf(s.close());
    lemma_receive_all_parked(s.close());
}

/// Emptying the message queue parks no sender.
pub proof fn lemma_receive_all_parked<T>(s: InnerView<T>)
    requires
        s.wf(),
        s.parked.len() == 0,
    ensures
        s.receive_all().parked.len() == 0,
    decreases s.messages.len(),
{
    if s.messages.len() > 0 {
        lemma_receive_wf(s);
        let popped = InnerView { messages: s.messages.drop_first(), ..s };
        assert(popped.unpark_one() == popped);
        lemma_receive_all_parked(s.receive());
    }
}

/// Every operation that may be called keeps the invariant.
pub proof fn law_every_operation_keeps_invariant<T>(s: InnerView<T>, op: Op<T>)
    requires
        s.wf(),
        s.admits(op),
    ensures
        s.apply(op).wf(),
{
    match op {
        Op::TrySend(tx, msg) => {
            lemma_poll_unparked_wf(s, tx, None);
            let (looked, tx1, ready) = s.poll_unparked(tx, None);
            if ready is Ready {
                lemma_do_send_wf(looked, tx1, None, msg);
            }
        },
        Op::PollReady(tx, lw) => {
            lemma_poll_unparked_wf(s, tx, Some(lw));
        },
        Op::SendUnbounded(msg) => {
            crate::lemmas::lemma_send_unbounded_wf(s, msg);
        },
        Op::CloseChannel => {
            lemma_terminate_wf(s);
        },
        Op::AddSender => {
            crate::lemmas::lemma_add_sender_wf(s);
        },
        Op::DropSender(tx) => {
            crate::lemmas::lemma_drop_sender_wf(s, tx);
        },
        Op::PollNext(lw) => {
            crate::lemmas::lemma_poll_next_wf(s, lw);
        },
        Op::TryNext => {
            if s.messages.len() > 0 {
                lemma_receive_wf(s);
            }
        },
        Op::Close => {
            lemma_close_wf(s);
        },
        Op::DropReceiver => {
            law_drop_receiver_empties(s);
        },
        Op::TakeWakers => {},
    }
}

/// However the operations of the handles of a channel follow one
/// another, the invariant holds after each of them.
pub proof fn law_every_run_keeps_invariant<T>(s: InnerView<T>, ops: Seq<Op<T>>)
    requires
        s.wf(),
        s.admits_all(ops),
    ensures
        s.run(ops).wf(),
    decreases ops.len(),
{
    if ops.len() > 0 {
        law_every_operation_keeps_invariant(s, ops[0]);
        law_every_run_keeps_invariant(s.apply(ops[0]), ops.drop_first());
    }
}

/// An operation that does not drop a parked sender leaves every parked
/// sender alive.
pub proof fn lemma_parked_stay_alive<T>(s: InnerView<T>, op: Op<T>)
    requires
        s.wf(),
        s.admits(op),
        s.parked_alive(),
        s.spares_slots(op),
    ensures
        s.apply(op).parked_alive(),
{
    let s2 = s.apply(op);
    law_every_operation_keeps_invariant(s, op);
    assert forall|k: int| 0 <= k < s2.parked.len() implies s2.cells[(
    #[trigger] s2.parked[k]) as int].owned by {
        let id = s2.parked[k];
        assert(id < s2.cells.len() && s2.cells[id as int].cell.is_parked);
        lemma_parked_cell_was_alive(s, op, id);
    }
}

/// A cell that is parked after an operation that does not drop a parked
/// sender has a live sender, if all parked cells had one before.
pub proof fn lemma_parked_cell_was_alive<T>(s: InnerView<T>, op: Op<T>, id: usize)
    requires
        s.wf(),
        s.admits(op),
        s.parked_alive(),
        s.spares_slots(op),
        id < s.apply(op).cells.len(),
        s.apply(op).cells[id as int].cell.is_parked,
    ensures
        s.apply(op).cells[id as int].owned,
{
    let s2 = s.apply(op);
    match op {
        Op::TrySend(tx, msg) => {
            lemma_poll_unparked_wf(s, tx, None);
            if id != tx.cell {
                assert(s.cells[id as int].cell.is_parked);
                lemma_parked_is_alive(s, id);
            }
        },
        Op::PollReady(tx, lw) => {
            if id != tx.cell {
                assert(s.cells[id as int].cell.is_parked);
                lemma_parked_is_alive(s, id);
            }
        },
        Op::SendUnbounded(msg) => {
            lemma_parked_is_alive(s, id);
        },
        Op::CloseChannel => {
            lemma_parked_is_alive(s, id);
        },
        Op::AddSender => {
            crate::lemmas::lemma_first_free(s.cells, 0);
            if id != first_free(s.cells, 0) {
                lemma_parked_is_alive(s, id);
            }
        },
        Op::DropSender(tx) => {
            crate::lemmas::lemma_drop_sender_wf(s, tx);
            assert(id != tx.cell);
            assert(s.cells[id as int].cell.is_parked);
            lemma_parked_is_alive(s, id);
        },
        Op::PollNext(lw) => {
            if s.messages.len() > 0 {
                lemma_receive_keeps_cells(s, id);
                lemma_parked_is_alive(s, id);
            } else {
                lemma_parked_is_alive(s, id);
            }
        },
        Op::TryNext => {
            if s.messages.len() > 0 {
                lemma_receive_keeps_cells(s, id);
            }
            lemma_parked_is_alive(s, id);
        },
        Op::Close => {
            lemma_close_wf(s);
            assert(s2.parked.contains(id));
        },
        Op::DropReceiver => {
            law_drop_receiver_empties(s);
            assert(s2.parked.contains(id));
        },
        Op::TakeWakers => {
            lemma_parked_is_alive(s, id);
        },
    }
}

/// Where all parked senders are alive, a cell that is parked has a live
/// sender.
pub proof fn lemma_parked_is_alive<T>(s: InnerView<T>, id: usize)
    requires
        s.wf(),
        s.parked_alive(),
        id < s.cells.len(),
        s.cells[id as int].cell.is_parked,
    ensures
        s.cells[id as int].owned,
{
    assert(s.parked.contains(id));
    let k = choose|k: int| 0 <= k < s.parked.len() && s.parked[k] == id;
    assert(s.cells[s.parked[k] as int].owned);
}

/// A cell that is parked after the receiver has taken an entry was
/// parked before, with the same sender.
pub proof fn lemma_receive_keeps_cells<T>(s: InnerView<T>, id: usize)
    requires
        s.wf(),
        s.messages.len() > 0,
        id < s.cells.len(),
        s.receive().cells[id as int].cell.is_parked,
    ensures
        s.receive().cells.len() == s.cells.len(),
        s.receive().cells[id as int] == s.cells[id as int],
{
    let popped = InnerView { messages: s.messages.drop_first(), ..s };
    lemma_unpark_one(popped);
    if s.parked.len() > 0 {
        assert(s.parked[0] < s.cells.len());
    }
}

/// An operation that drops no sender who is parked or whose channel is
/// closed keeps the count of messages within the capacity.
pub proof fn lemma_capacity_step<T>(s: InnerView<T>, op: Op<T>, b: usize)
    requires
        s.wf(),
        s.buffer == Some(b),
        s.parked_alive(),
        s.within_capacity(b),
        s.admits(op),
        s.spares_slots(op),
    ensures
        s.apply(op).wf(),
        s.apply(op).buffer == Some(b),
        s.apply(op).parked_alive(),
        s.apply(op).within_capacity(b),
{
    let s2 = s.apply(op);
    law_every_operation_keeps_invariant(s, op);
    lemma_parked_stay_alive(s, op);
    lemma_buffer_is_fixed(s, op);
    if s2.state.is_open {
        law_capacity(s2, b);
    } else {
        match op {
            Op::TrySend(tx, msg) => {
                lemma_poll_unparked_wf(s, tx, None);
                let (looked, tx1, ready) = s.poll_unparked(tx, None);
                if ready is Ready {
                    lemma_do_send_wf(looked, tx1, None, msg);
                }
            },
            Op::PollReady(tx, lw) => {
                lemma_poll_unparked_wf(s, tx, Some(lw));
            },
            Op::CloseChannel => {
                if s.state.is_open {
                    law_capacity(s, b);
                }
            },
            Op::DropSender(tx) => {
                // the channel was open, and this was its last sender
                crate::lemmas::lemma_drop_sender_wf(s, tx);
                let gone = Slot { cell: s.cells[tx.cell as int].cell, owned: false };
                let left = InnerView {
                    cells: s.cells.update(tx.cell as int, gone),
                    num_senders: (s.num_senders - 1) as usize,
                    ..s
                };
                assert(s.num_senders == 1);
                crate::lemmas::lemma_count_update(s.cells, tx.cell as int, gone);
                assert forall|k: int| 0 <= k < left.parked.len() implies left.cells[(
                #[trigger] left.parked[k]) as int].owned by {
                    assert(s.parked[k] < s.cells.len());
                    assert(s.cells[s.parked[k] as int].cell.is_parked);
                    assert(s.cells[s.parked[k] as int].owned);
                }
                lemma_distinct_owned(left.cells, left.parked);
            },
            Op::PollNext(lw) => {
                if s.messages.len() > 0 {
                    lemma_receive_wf(s);
                    crate::lemmas::lemma_unpark_one(
                        InnerView { messages: s.messages.drop_first(), ..s },
                    );
                }
            },
            Op::TryNext => {
                if s.messages.len() > 0 {
                    lemma_receive_wf(s);
                    crate::lemmas::lemma_unpark_one(
                        InnerView { messages: s.messages.drop_first(), ..s },
                    );
                }
            },
            Op::Close => {
                lemma_close_wf(s);
                let shut = InnerView {
                    state: crate::state::State {
                        is_open: false,
                        num_messages: s.state.num_messages,
                    },
                    ..s
                };
                crate::lemmas::lemma_unpark_all_wf(shut);
                if s.state.is_open {
                    law_capacity(s, b);
                }
            },
            Op::DropReceiver => {
                law_drop_receiver_empties(s);
            },
            _ => {},
        }
    }
}

/// The capacity of a bounded channel, in every run. However the
/// operations of the handles follow one another, as long as no sender is
/// dropped while it is parked or after the channel was closed, the count
/// of messages stays within the buffer plus the number of senders, and
/// one more for the sentinel, after each operation.
pub proof fn law_capacity_in_every_run<T>(s: InnerView<T>, ops: Seq<Op<T>>, b: usize)
    requires
        s.wf(),
        s.buffer == Some(b),
        s.parked_alive(),
        s.within_capacity(b),
        s.admits_all(ops),
        s.spares_slots_all(ops),
    ensures
        s.run(ops).wf(),
        s.run(ops).parked_alive(),
        s.run(ops).within_capacity(b),
        s.run(ops).state.num_messages <= b + s.run(ops).num_senders + 1,
        s.run(ops).state.is_open ==> s.run(ops).state.num_messages <= b + s.run(ops).num_senders,
    decreases ops.len(),
{
    if ops.len() > 0 {
        lemma_capacity_step(s, ops[0], b);
        law_capacity_in_every_run(s.apply(ops[0]), ops.drop_first(), b);
    } else if s.state.is_open {
        law_capacity(s, b);
    }
}

/// A channel as it is made is within its capacity and has no parked
/// sender, so that the capacity holds in every run that starts there.
pub proof fn law_capacity_from_the_start<T>(ops: Seq<Op<T>>, b: usize)
    requires
        b < crate::state::MAX_BUFFER,
        InnerView::<T>::init(Some(b)).admits_all(ops),
        InnerView::<T>::init(Some(b)).spares_slots_all(ops),
    ensures
        InnerView::<T>::init(Some(b)).run(ops).state.num_messages <= b + InnerView::<T>::init(
            Some(b),
        ).run(ops).num_senders + 1,
{
    crate::lemmas::lemma_init_wf::<T>(Some(b));
    law_capacity_in_every_run(InnerView::<T>::init(Some(b)), ops, b);
}

/// No operation changes the buffer size.
pub proof fn lemma_buffer_is_fixed<T>(s: InnerView<T>, op: Op<T>)
    requires
        s.wf(),
        s.admits(op),
    ensures
        s.apply(op).buffer == s.buffer,
{
    match op {
        Op::Close => {
            lemma_close_wf(s);
            let shut = InnerView {
                state: crate::state::State { is_open: false, num_messages: s.state.num_messages },
                ..s
            };
            crate::lemmas::lemma_unpark_all_wf(shut);
        },
        Op::DropReceiver => {
            lemma_close_wf(s);
            let shut = InnerView {
                state: crate::state::State { is_open: false, num_messages: s.state.num_messages },
                ..s
            };
            crate::lemmas::lemma_unpark_all_wf(shut);
            lemma_receive_n(s.close(), s.close().messages.len());
            lemma_receive_all_is_receive_n(s.close());
        },
        Op::PollNext(lw) => {},
        _ => {},
    }
}

/// Emptying the message queue is taking as many entries as it holds.
pub proof fn lemma_receive_all_is_receive_n<T>(s: InnerView<T>)
    requires
        s.wf(),
    ensures
        s.receive_all() == s.receive_n(s.messages.len()),
    decreases s.messages.len(),
{
    if s.messages.len() > 0 {
        lemma_receive_wf(s);
        lemma_receive_all_is_receive_n(s.receive());
    }
}

/// The receiver undoes what the sender has done, in the opposite order.
/// The sender raises the count, parks if it has to, and then enqueues;
/// the receiver takes an entry, lets a parked sender go, and then lowers
/// the count. So a send and a receive leave the count as it was, and on a
/// channel with nothing queued they leave no sender parked.
pub proof fn law_send_receive_parity<T>(s: InnerView<T>, tx: SenderView, msg: T)
    requires
        s.wf(),
        s.attached(tx),
        s.state.num_messages < MAX_CAPACITY,
        s.try_send(tx, msg).2 is Ok,
    ensures
        s.try_send(tx, msg).0.receive().state == s.state,
        s.try_send(tx, msg).0.receive().messages == s.messages.push(Some(msg)).drop_first(),
        s.messages.len() == 0 ==> {
            &&& s.try_send(tx, msg).0.try_next().1 == Ok::<Option<T>, crate::error::TryRecvError>(
                Some(msg),
            )
            &&& s.try_send(tx, msg).0.receive().messages.len() == 0
            &&& s.try_send(tx, msg).0.receive().parked.len() == 0
            &&& !s.try_send(tx, msg).0.receive().cells[tx.cell as int].cell.is_parked
        },
{
    law_no_value_lost(s, tx, msg);
    lemma_poll_unparked_wf(s, tx, None);
    let (looked, tx1, ready) = s.poll_unparked(tx, None);
    lemma_do_send_wf(looked, tx1, None, msg);
    let s1 = s.try_send(tx, msg).0;
    lemma_receive_wf(s1);
    let popped = InnerView { messages: s1.messages.drop_first(), ..s1 };
    lemma_unpark_one(popped);
    if s.messages.len() == 0 {
        let r = s1.receive();
        assert(s1.messages.len() == 1);
        assert(num_values(r.messages) == 0);
        if r.cells[tx.cell as int].cell.is_parked {
            assert(r.parked.contains(tx.cell));
        }
    }
}

} // verus!
