//! Why the operations of the channel keep its invariant.

use vstd::prelude::*;
use crate::model::fresh_slot;
use crate::model::first_free;
use crate::model::num_values;
use crate::model::owned_count;
use crate::model::spec_max_senders;
use crate::model::InnerView;
use crate::model::SenderView;
use std::task::Waker;
use crate::state::MAX_BUFFER;
use crate::state::MAX_CAPACITY;
use crate::task::Slot;

verus! {

/// The constants of the state word are ordered as their names say, and
/// twice the largest count still fits a word.
pub proof fn lemma_limits()
    ensures
        0 < MAX_BUFFER < MAX_CAPACITY,
        MAX_CAPACITY - MAX_BUFFER > 0,
        MAX_CAPACITY + MAX_CAPACITY < usize::MAX,
{
    assert(0 < (!0usize >> 2) && (!0usize >> 2) < (!0usize >> 1)) by (bit_vector);
    let all = !0usize;
    assert((!0usize >> 1) + (!0usize >> 1) < all) by (bit_vector)
        requires
            all == !0usize,
    ;
}

/// A cell more adds its owner to the count.
pub proof fn lemma_count_push(cells: Seq<Slot>, slot: Slot)
    ensures
        owned_count(cells.push(slot)) == owned_count(cells) + if slot.owned {
            1nat
        } else {
            0nat
        },
{
    assert(cells.push(slot).drop_last() =~= cells);
}

/// Replacing one cell changes the count by what the two cells differ in.
pub proof fn lemma_count_update(cells: Seq<Slot>, i: int, slot: Slot)
    requires
        0 <= i < cells.len(),
    ensures
        owned_count(cells.update(i, slot)) + (if cells[i].owned {
            1nat
        } else {
            0nat
        }) == owned_count(cells) + (if slot.owned {
            1nat
        } else {
            0nat
        }),
    decreases cells.len(),
{
    if i == cells.len() - 1 {
        assert(cells.update(i, slot).drop_last() =~= cells.drop_last());
    } else {
        lemma_count_update(cells.drop_last(), i, slot);
        assert(cells.update(i, slot).drop_last() =~= cells.drop_last().update(i, slot));
    }
}

/// A new channel satisfies the invariant.
pub proof fn lemma_init_wf<T>(buffer: Option<usize>)
    requires
        buffer matches Some(b) ==> b < MAX_BUFFER,
    ensures
        InnerView::<T>::init(buffer).wf(),
{
    lemma_limits();
    let s = InnerView::<T>::init(buffer);
    lemma_count_push(Seq::<Slot>::empty(), fresh_slot());
    assert(Seq::<Slot>::empty().push(fresh_slot()) =~= seq![fresh_slot()]);
    assert(owned_count(Seq::<Slot>::empty()) == 0);
}

/// Looking at its cell leaves a sender attached, and tells it truly
/// whether it is free to send.
pub proof fn lemma_poll_unparked_wf<T>(s: InnerView<T>, tx: SenderView, lw: Option<Waker>)
    requires
        s.wf(),
        s.attached(tx),
    ensures
        s.poll_unparked(tx, lw).0.wf(),
        s.poll_unparked(tx, lw).0.attached(s.poll_unparked(tx, lw).1),
        s.poll_unparked(tx, lw).2 is Ready ==> s.poll_unparked(tx, lw).0.ready(
            s.poll_unparked(tx, lw).1,
        ),
        s.poll_unparked(tx, lw).0.state == s.state,
        s.poll_unparked(tx, lw).0.terminated == s.terminated,
        s.keeps_other_senders(s.poll_unparked(tx, lw).0, tx),
{
    let s2 = s.poll_unparked(tx, lw).0;
    if tx.maybe_parked && s.cells[tx.cell as int].cell.is_parked {
        lemma_count_update(s.cells, tx.cell as int, s2.cells[tx.cell as int]);
        assert forall|k: int| 0 <= k < s2.parked.len() implies (#[trigger] s2.parked[k])
            < s2.cells.len() && s2.cells[s2.parked[k] as int].cell.is_parked by {
            assert(s.parked[k] < s.cells.len());
        }
        assert forall|i: int|
            0 <= i < s2.cells.len() && (#[trigger] s2.cells[i]).cell.is_parked implies s2.parked.contains(
            i as usize,
        ) by {
            assert(s.cells[i].cell.is_parked);
        }
        assert forall|i: int|
            0 <= i < s2.cells.len() && !(#[trigger] s2.cells[i]).cell.is_parked implies s2.cells[i].cell.task is None by {
            assert(!s.cells[i].cell.is_parked);
        }
    }
}

/// A value sent by a sender that is free to send keeps the invariant.
pub proof fn lemma_do_send_wf<T>(s: InnerView<T>, tx: SenderView, lw: Option<Waker>, msg: T)
    requires
        s.wf(),
        s.attached(tx),
        s.ready(tx),
        s.state.num_messages < MAX_CAPACITY,
    ensures
        s.do_send(tx, lw, msg).0.wf(),
        s.do_send(tx, lw, msg).0.attached(s.do_send(tx, lw, msg).1),
        s.keeps_other_senders(s.do_send(tx, lw, msg).0, tx),
{
    if s.state.is_open {
        let reserved = s.reserve(false);
        let s2 = s.do_send(tx, lw, msg).0;
        let id = tx.cell as int;
        assert(!s.cells[id].cell.is_parked);
        assert(!s.terminated);
        assert forall|i: int| 0 <= i < s.messages.len() implies (#[trigger] s.messages[i]) is Some by {}
        assert(s2.messages =~= s.messages.push(Some(msg)));
        assert(num_values(s2.messages) == num_values(s.messages) + 1) by {
            if s.messages.len() > 0 {
                assert(s.messages.last() is Some);
            }
            assert(s2.messages.last() == Some(msg));
        }
        assert forall|i: int|
            0 <= i < s2.messages.len() && (#[trigger] s2.messages[i]) is None implies i
            == s2.messages.len() - 1 && s2.terminated by {
            if i < s.messages.len() {
                assert(s.messages[i] is Some);
            }
        }
        if reserved.over_buffer() {
            lemma_count_update(s.cells, id, s2.cells[id]);
            assert(s2.parked =~= s.parked.push(tx.cell));
            assert forall|k: int| 0 <= k < s2.parked.len() implies (#[trigger] s2.parked[k])
                < s2.cells.len() && s2.cells[s2.parked[k] as int].cell.is_parked by {
                if k < s.parked.len() {
                    assert(s.parked[k] < s.cells.len());
                }
            }
            assert(s2.parked.no_duplicates()) by {
                assert forall|i: int, j: int|
                    0 <= i < s2.parked.len() && 0 <= j < s2.parked.len() && i != j implies s2.parked[i]
                    != s2.parked[j] by {
                    if i < s.parked.len() {
                        assert(s.cells[s.parked[i] as int].cell.is_parked);
                    }
                    if j < s.parked.len() {
                        assert(s.cells[s.parked[j] as int].cell.is_parked);
                    }
                }
            }
            assert forall|i: int|
                0 <= i < s2.cells.len() && (#[trigger] s2.cells[i]).cell.is_parked implies s2.parked.contains(
                i as usize,
            ) by {
                if i == id {
                    assert(s2.parked[s.parked.len() as int] == tx.cell);
                } else {
                    assert(s.cells[i].cell.is_parked);
                    let k = choose|k: int| 0 <= k < s.parked.len() && s.parked[k] == i as usize;
                    assert(s2.parked[k] == i as usize);
                }
            }
            assert forall|i: int|
                0 <= i < s2.cells.len() && !(#[trigger] s2.cells[i]).cell.is_parked implies s2.cells[i].cell.task is None by {
                assert(!s.cells[i].cell.is_parked);
            }
        }
    }
}

/// A value sent on an unbounded channel keeps the invariant.
pub proof fn lemma_send_unbounded_wf<T>(s: InnerView<T>, msg: T)
    requires
        s.wf(),
        s.buffer is None,
        s.state.num_messages < MAX_CAPACITY,
    ensures
        s.send_unbounded(msg).0.wf(),
        s.keeps_senders(s.send_unbounded(msg).0),
{
    if s.state.is_open {
        let s2 = s.send_unbounded(msg).0;
        assert(!s.terminated);
        assert forall|i: int| 0 <= i < s.messages.len() implies (#[trigger] s.messages[i]) is Some by {}
        assert(s2.messages =~= s.messages.push(Some(msg)));
        assert(num_values(s2.messages) == num_values(s.messages) + 1) by {
            if s.messages.len() > 0 {
                assert(s.messages.last() is Some);
            }
            assert(s2.messages.last() == Some(msg));
        }
        assert forall|i: int|
            0 <= i < s2.messages.len() && (#[trigger] s2.messages[i]) is None implies i
            == s2.messages.len() - 1 && s2.terminated by {
            if i < s.messages.len() {
                assert(s.messages[i] is Some);
            }
        }
    }
}

/// Terminating the stream keeps the invariant, whatever the number of
/// senders is.
pub proof fn lemma_terminate_wf<T>(s: InnerView<T>)
    requires
        s.counts_wf(),
        s.sentinel_wf(),
        s.parked_wf(),
        s.capacity_wf(),
        s.recv_wf(),
        !s.terminated ==> s.state.num_messages < MAX_CAPACITY,
    ensures
        s.terminate().counts_wf(),
        s.terminate().sentinel_wf(),
        s.terminate().parked_wf(),
        s.terminate().capacity_wf(),
        s.terminate().recv_wf(),
        s.terminate().terminated,
        s.terminate().cells == s.cells,
        s.terminate().num_senders == s.num_senders,
        s.terminate().buffer == s.buffer,
        s.keeps_senders(s.terminate()),
{
    if !s.terminated {
        let s2 = s.terminate();
        assert forall|i: int| 0 <= i < s.messages.len() implies (#[trigger] s.messages[i]) is Some by {}
        assert(s2.messages =~= s.messages.push(None));
        assert(num_values(s2.messages) == num_values(s.messages)) by {
            if s.messages.len() > 0 {
                assert(s.messages.last() is Some);
            }
            assert(s2.messages.last() == None::<T>);
        }
        assert forall|i: int|
            0 <= i < s2.messages.len() && (#[trigger] s2.messages[i]) is None implies i
            == s2.messages.len() - 1 && s2.terminated by {
            if i < s.messages.len() {
                assert(s.messages[i] is Some);
            }
        }
    }
}

/// The search for a free cell ends at a free cell or behind the last one.
pub proof fn lemma_first_free(cells: Seq<Slot>, from: nat)
    requires
        from <= cells.len(),
    ensures
        from <= first_free(cells, from) <= cells.len(),
        first_free(cells, from) < cells.len() ==> cells[first_free(cells, from) as int].is_free(),
    decreases cells.len() - from,
{
    if from < cells.len() && !cells[from as int].is_free() {
        lemma_first_free(cells, from + 1);
    }
}

/// Where the search for a free cell ends behind the last cell, no cell
/// is free.
pub proof fn lemma_none_free(cells: Seq<Slot>, from: nat, i: int)
    requires
        first_free(cells, from) == cells.len(),
        from <= i < cells.len(),
    ensures
        !cells[i].is_free(),
    decreases cells.len() - from,
{
    if from < i {
        lemma_first_free(cells, from);
        lemma_none_free(cells, from + 1, i);
    }
}

/// Cells of which each has a live sender or stands in a list are no more
/// than the live senders and the list together.
pub proof fn lemma_cells_covered(cells: Seq<Slot>, ids: Seq<usize>)
    requires
        forall|i: int|
            0 <= i < cells.len() ==> (#[trigger] cells[i]).owned || exists|k: int|
                0 <= k < ids.len() && ids[k] == i,
    ensures
        cells.len() <= owned_count(cells) + ids.len(),
    decreases cells.len(),
{
    if cells.len() > 0 {
        let last = cells.len() - 1;
        let rest = cells.drop_last();
        if cells[last].owned {
            assert forall|i: int| 0 <= i < rest.len() implies (#[trigger] rest[i]).owned || exists|
                k: int,
            |
                0 <= k < ids.len() && ids[k] == i by {
                assert(rest[i] == cells[i]);
            }
            lemma_cells_covered(rest, ids);
        } else {
            let p = choose|p: int| 0 <= p < ids.len() && ids[p] == last;
            let others = ids.remove(p);
            assert forall|i: int| 0 <= i < rest.len() implies (#[trigger] rest[i]).owned || exists|
                k: int,
            |
                0 <= k < others.len() && others[k] == i by {
                assert(rest[i] == cells[i]);
                if !cells[i].owned {
                    let k = choose|k: int| 0 <= k < ids.len() && ids[k] == i;
                    assert(k != p);
                    if k < p {
                        assert(others[k] == i);
                    } else {
                        assert(others[k - 1] == i);
                    }
                }
            }
            lemma_cells_covered(rest, others);
        }
    }
}

/// The cells of a channel are no more than a word can count, also when a
/// new sender finds no free cell and adds one.
pub proof fn lemma_cells_fit<T>(s: InnerView<T>)
    requires
        s.wf(),
        first_free(s.cells, 0) == s.cells.len(),
    ensures
        s.cells.len() <= s.num_senders + s.parked.len(),
        s.cells.len() < usize::MAX,
{
    lemma_limits();
    assert forall|i: int| 0 <= i < s.cells.len() implies (#[trigger] s.cells[i]).owned || exists|
        k: int,
    |
        0 <= k < s.parked.len() && s.parked[k] == i by {
        lemma_none_free(s.cells, 0, i);
        if !s.cells[i].owned {
            assert(s.cells[i].cell.is_parked);
            assert(s.parked.contains(i as usize));
            let k = choose|k: int| 0 <= k < s.parked.len() && s.parked[k] == i as usize;
            assert(s.parked[k] == i);
        }
    }
    lemma_cells_covered(s.cells, s.parked);
    assert(s.num_senders <= MAX_CAPACITY) by {
        assert(s.num_senders <= spec_max_senders(s.buffer));
    }
    assert(s.parked.len() <= s.messages.len());
}

/// A sender that joins within the limit keeps the invariant and gets a
/// cell of its own.
pub proof fn lemma_add_sender_wf<T>(s: InnerView<T>)
    requires
        s.wf(),
        s.num_senders < spec_max_senders(s.buffer),
    ensures
        s.add_sender().0.wf(),
        s.add_sender().0.attached(s.add_sender().1),
        s.keeps_senders(s.add_sender().0),
        forall|tx: SenderView| #[trigger] s.attached(tx) ==> tx.cell != s.add_sender().1.cell,
{
    let s2 = s.add_sender().0;
    let id = first_free(s.cells, 0);
    lemma_first_free(s.cells, 0);
    if id < s.cells.len() {
        lemma_count_update(s.cells, id as int, fresh_slot());
    } else {
        lemma_count_push(s.cells, fresh_slot());
        lemma_cells_fit(s);
    }
    assert forall|k: int| 0 <= k < s2.parked.len() implies (#[trigger] s2.parked[k])
        < s2.cells.len() && s2.cells[s2.parked[k] as int].cell.is_parked by {
        assert(s.parked[k] < s.cells.len());
        assert(s.cells[s.parked[k] as int].cell.is_parked);
    }
    assert forall|i: int|
        0 <= i < s2.cells.len() && (#[trigger] s2.cells[i]).cell.is_parked implies s2.parked.contains(
        i as usize,
    ) by {
        assert(s.cells[i].cell.is_parked);
    }
    assert forall|i: int|
        0 <= i < s2.cells.len() && !(#[trigger] s2.cells[i]).cell.is_parked implies s2.cells[i].cell.task is None by {
        if i != id {
            assert(!s.cells[i].cell.is_parked);
        }
    }
}

/// A sender that goes away keeps the invariant.
pub proof fn lemma_drop_sender_wf<T>(s: InnerView<T>, tx: SenderView)
    requires
        s.wf(),
        s.attached(tx),
        s.num_senders == 1 && !s.terminated ==> s.state.num_messages < MAX_CAPACITY,
    ensures
        s.drop_sender(tx).wf(),
        s.num_senders >= 1,
        s.keeps_other_senders(s.drop_sender(tx), tx),
{
    let id = tx.cell as int;
    let gone = Slot { cell: s.cells[id].cell, owned: false };
    let left = InnerView {
        cells: s.cells.update(id, gone),
        num_senders: (s.num_senders - 1) as usize,
        ..s
    };
    lemma_count_update(s.cells, id, gone);
    assert forall|k: int| 0 <= k < left.parked.len() implies (#[trigger] left.parked[k])
        < left.cells.len() && left.cells[left.parked[k] as int].cell.is_parked by {
        assert(s.parked[k] < s.cells.len());
        assert(s.cells[s.parked[k] as int].cell.is_parked);
    }
    assert forall|i: int|
        0 <= i < left.cells.len() && (#[trigger] left.cells[i]).cell.is_parked implies left.parked.contains(
        i as usize,
    ) by {
        assert(s.cells[i].cell.is_parked);
    }
    assert forall|i: int|
        0 <= i < left.cells.len() && !(#[trigger] left.cells[i]).cell.is_parked implies left.cells[i].cell.task is None by {
        assert(!s.cells[i].cell.is_parked);
    }
    assert(left.parked_wf());
    if s.num_senders == 1 {
        lemma_terminate_wf(left);
    }
}

/// Letting one parked sender go keeps the queue of parked senders and
/// the cells in step, and touches nothing else.
pub proof fn lemma_unpark_one<T>(s: InnerView<T>)
    requires
        s.parked_wf(),
    ensures
        s.unpark_one().parked_wf(),
        owned_count(s.unpark_one().cells) == owned_count(s.cells),
        s.keeps_senders(s.unpark_one()),
        s.parked.len() > 0 ==> s.unpark_one().parked.len() == s.parked.len() - 1,
        s.parked.len() == 0 ==> s.unpark_one() == s,
{
    if s.parked.len() > 0 {
        let s2 = s.unpark_one();
        let id = s.parked[0] as int;
        assert(s.parked[0] < s.cells.len());
        lemma_count_update(s.cells, id, s2.cells[id]);
        assert forall|k: int| 0 <= k < s2.parked.len() implies (#[trigger] s2.parked[k])
            < s2.cells.len() && s2.cells[s2.parked[k] as int].cell.is_parked by {
            assert(s2.parked[k] == s.parked[k + 1]);
            assert(s.parked[k + 1] < s.cells.len());
            assert(s.parked[k + 1] != s.parked[0]);
        }
        assert(s2.parked.no_duplicates()) by {
            assert forall|i: int, j: int|
                0 <= i < s2.parked.len() && 0 <= j < s2.parked.len() && i != j implies s2.parked[i]
                != s2.parked[j] by {
                assert(s2.parked[i] == s.parked[i + 1]);
                assert(s2.parked[j] == s.parked[j + 1]);
            }
        }
        assert forall|i: int|
            0 <= i < s2.cells.len() && (#[trigger] s2.cells[i]).cell.is_parked implies s2.parked.contains(
            i as usize,
        ) by {
            assert(i != id);
            assert(s.cells[i].cell.is_parked);
            let k = choose|k: int| 0 <= k < s.parked.len() && s.parked[k] == i as usize;
            assert(k != 0);
            assert(s2.parked[k - 1] == i as usize);
        }
        assert forall|i: int|
            0 <= i < s2.cells.len() && !(#[trigger] s2.cells[i]).cell.is_parked implies s2.cells[i].cell.task is None by {
            if i != id {
                assert(!s.cells[i].cell.is_parked);
            }
        }
    }
}

/// Taking the oldest entry out of the message queue keeps the invariant,
/// and no sender loses its place.
pub proof fn lemma_receive_wf<T>(s: InnerView<T>)
    requires
        s.wf(),
        s.messages.len() > 0,
    ensures
        s.receive().wf(),
        s.keeps_senders(s.receive()),
        s.receive().messages == s.messages.drop_first(),
{
    let popped = InnerView { messages: s.messages.drop_first(), ..s };
    lemma_unpark_one(popped);
    let s2 = s.receive();
    assert forall|i: int|
        0 <= i < s2.messages.len() && (#[trigger] s2.messages[i]) is None implies i
        == s2.messages.len() - 1 && s2.terminated by {
        assert(s2.messages[i] == s.messages[i + 1]);
    }
    if s.messages[0] is None {
        assert(s.messages.len() == 1);
    } else if s.messages.len() >= 2 {
        assert(s2.messages.last() == s.messages.last());
    }
}

/// On a closed channel, letting all parked senders go keeps the
/// invariant and leaves no sender parked.
pub proof fn lemma_unpark_all_wf<T>(s: InnerView<T>)
    requires
        s.wf(),
        !s.state.is_open,
    ensures
        s.unpark_all().wf(),
        s.unpark_all().parked.len() == 0,
        s.unpark_all().messages == s.messages,
        s.unpark_all().state == s.state,
        s.unpark_all().terminated == s.terminated,
        s.unpark_all().num_senders == s.num_senders,
        s.unpark_all().buffer == s.buffer,
        s.unpark_all().recv_task == s.recv_task,
        s.keeps_senders(s.unpark_all()),
    decreases s.parked.len(),
{
    if s.parked.len() > 0 {
        lemma_unpark_one(s);
        lemma_unpark_all_wf(s.unpark_one());
        assert forall|tx: SenderView| #[trigger] s.attached(tx) implies s.unpark_all().attached(
            tx,
        ) by {
            assert(s.unpark_one().attached(tx));
        }
    }
}

/// Closing the channel from the receiving side keeps the invariant.
pub proof fn lemma_close_wf<T>(s: InnerView<T>)
    requires
        s.wf(),
    ensures
        s.close().wf(),
        s.close().parked.len() == 0,
        s.close().messages == s.messages,
        !s.close().state.is_open,
        s.close().state.num_messages == s.state.num_messages,
        s.keeps_senders(s.close()),
{
    let shut = InnerView {
        state: crate::state::State { is_open: false, num_messages: s.state.num_messages },
        ..s
    };
    lemma_unpark_all_wf(shut);
    assert forall|tx: SenderView| #[trigger] s.attached(tx) implies s.close().attached(tx) by {
        assert(shut.attached(tx));
    }
}

/// Polling for the next entry keeps the invariant.
pub proof fn lemma_poll_next_wf<T>(s: InnerView<T>, lw: Waker)
    requires
        s.wf(),
    ensures
        s.poll_next(lw).0.wf(),
        s.keeps_senders(s.poll_next(lw).0),
        s.try_park(lw).0.wf(),
        s.keeps_senders(s.try_park(lw).0),
{
    if s.messages.len() > 0 {
        lemma_receive_wf(s);
    }
}

/// Emptying the message queue of a closed channel keeps the invariant
/// and leaves the count at zero.
pub proof fn lemma_receive_all_wf<T>(s: InnerView<T>)
    requires
        s.wf(),
    ensures
        s.receive_all().wf(),
        s.receive_all().messages.len() == 0,
        s.receive_all().state.num_messages == 0,
        s.receive_all().state.is_open == s.state.is_open,
        s.keeps_senders(s.receive_all()),
    decreases s.messages.len(),
{
    if s.messages.len() > 0 {
        lemma_receive_wf(s);
        lemma_receive_all_wf(s.receive());
        assert forall|tx: SenderView| #[trigger] s.attached(tx) implies s.receive_all().attached(
            tx,
        ) by {
            assert(s.receive().attached(tx));
        }
    }
}

} // verus!
