use mpsc_channel::channel::channel;
use mpsc_channel::channel::unbounded;
use mpsc_channel::error::SendError;
use mpsc_channel::error::TryRecvError;
use mpsc_channel::inner::Inner;
use mpsc_channel::state::MAX_BUFFER;
use std::sync::atomic::AtomicUsize;
use std::sync::atomic::Ordering;
use std::sync::Arc;
use std::task::Poll;
use std::task::Wake;
use std::task::Waker;

struct Bell(AtomicUsize);

impl Wake for Bell {
    fn wake(self: Arc<Self>) {
        self.0.fetch_add(1, Ordering::SeqCst);
    }
}

fn bell() -> (Arc<Bell>, Waker) {
    let b = Arc::new(Bell(AtomicUsize::new(0)));
    (b.clone(), Waker::from(b))
}

fn rings(b: &Arc<Bell>) -> usize {
    b.0.load(Ordering::SeqCst)
}

fn wake_all<T>(inner: &mut Inner<T>) -> usize {
    let wakers = inner.take_wakers();
    let n = wakers.len();
    mpsc_channel::task::wake_all(wakers);
    n
}

#[test]
fn the_count_stays_within_buffer_plus_senders() {
    let (mut a, mut rx, mut inner) = channel::<u32>(2);
    let mut b = a.clone(&mut inner);
    let mut c = a.clone(&mut inner);
    let mut sent = 0;
    for round in 0..4 {
        for tx in [&mut a, &mut b, &mut c] {
            if tx.try_send(&mut inner, round).is_ok() {
                sent += 1;
            }
            assert!(inner.num_messages() <= 2 + inner.num_senders());
        }
    }
    // two slots of the buffer, then one slot for each of the three senders
    assert_eq!(sent, 5);
    assert_eq!(inner.num_messages(), 5);
    assert_eq!(rx.try_next(&mut inner), Ok(Some(0)));
    assert_eq!(inner.num_messages(), 4);
}

#[test]
fn one_sender_keeps_its_order() {
    let (tx, mut rx, mut inner) = unbounded::<u32>();
    for i in 0..100 {
        assert_eq!(tx.unbounded_send(&mut inner, i), Ok(()));
    }
    for i in 0..100 {
        assert_eq!(rx.try_next(&mut inner), Ok(Some(i)));
    }
    assert_eq!(rx.try_next(&mut inner), Err(TryRecvError { _inner: () }));
}

#[test]
fn after_the_last_sender_the_stream_ends_for_good() {
    let (mut tx, mut rx, mut inner) = channel::<u32>(4);
    let tx2 = tx.clone(&mut inner);
    assert_eq!(tx.try_send(&mut inner, 1), Ok(()));
    assert_eq!(tx.try_send(&mut inner, 2), Ok(()));
    tx2.drop(&mut inner);
    assert!(inner.is_open());
    tx.drop(&mut inner);
    assert!(!inner.is_open());
    assert!(inner.is_terminated());
    assert_eq!(inner.num_messages(), 3);
    let (_, w) = bell();
    assert_eq!(rx.poll_next(&mut inner, w.clone()), Poll::Ready(Some(1)));
    assert_eq!(rx.poll_next(&mut inner, w.clone()), Poll::Ready(Some(2)));
    assert_eq!(rx.poll_next(&mut inner, w.clone()), Poll::Ready(None));
    assert_eq!(inner.num_messages(), 0);
    for _ in 0..5 {
        assert_eq!(rx.poll_next(&mut inner, w.clone()), Poll::Ready(None));
        assert_eq!(rx.try_next(&mut inner), Ok(None));
    }
}

#[test]
fn a_value_is_delivered_or_handed_back() {
    let (mut tx, mut rx, mut inner) = channel::<String>(1);
    assert_eq!(tx.try_send(&mut inner, String::from("kept")), Ok(()));
    assert_eq!(rx.try_next(&mut inner), Ok(Some(String::from("kept"))));
    rx.close(&mut inner);
    let back = tx.try_send(&mut inner, String::from("refused")).unwrap_err();
    assert!(back.is_disconnected());
    assert_eq!(back.into_inner(), "refused");
    assert_eq!(inner.num_messages(), 0);
}

#[test]
fn a_parked_sender_is_woken_when_its_message_is_taken() {
    let (mut tx, mut rx, mut inner) = channel::<u32>(0);
    assert_eq!(tx.try_send(&mut inner, 1), Ok(()));
    let (b, w) = bell();
    assert_eq!(tx.poll_ready(&mut inner, w), Poll::Pending);
    assert_eq!(wake_all(&mut inner), 0);
    assert_eq!(rings(&b), 0);
    assert_eq!(rx.try_next(&mut inner), Ok(Some(1)));
    assert_eq!(wake_all(&mut inner), 1);
    assert_eq!(rings(&b), 1);
    let (b2, w2) = bell();
    assert_eq!(tx.poll_ready(&mut inner, w2), Poll::Ready(Ok(())));
    assert_eq!(tx.try_send(&mut inner, 2), Ok(()));
    assert_eq!(rings(&b2), 0);
}

#[test]
fn the_latest_waker_of_a_parked_sender_is_the_one_that_is_woken() {
    let (mut tx, mut rx, mut inner) = channel::<u32>(0);
    assert_eq!(tx.try_send(&mut inner, 1), Ok(()));
    let (old, w_old) = bell();
    let (new, w_new) = bell();
    assert_eq!(tx.poll_ready(&mut inner, w_old), Poll::Pending);
    assert_eq!(tx.poll_ready(&mut inner, w_new), Poll::Pending);
    assert_eq!(rx.try_next(&mut inner), Ok(Some(1)));
    assert_eq!(wake_all(&mut inner), 1);
    assert_eq!(rings(&old), 0);
    assert_eq!(rings(&new), 1);
}

#[test]
fn closing_from_the_sender_side_is_idempotent() {
    let (mut tx, mut rx, mut inner) = channel::<u32>(2);
    assert_eq!(tx.try_send(&mut inner, 5), Ok(()));
    tx.close_channel(&mut inner);
    assert_eq!(inner.num_messages(), 2);
    assert!(tx.is_closed(&inner));
    tx.close_channel(&mut inner);
    tx.close_channel(&mut inner);
    assert_eq!(inner.num_messages(), 2);
    assert_eq!(rx.try_next(&mut inner), Ok(Some(5)));
    assert_eq!(rx.try_next(&mut inner), Ok(None));
    assert_eq!(inner.num_messages(), 0);
    tx.close_channel(&mut inner);
    assert_eq!(inner.num_messages(), 0);
    tx.drop(&mut inner);
    assert_eq!(inner.num_messages(), 0);
    assert_eq!(rx.try_next(&mut inner), Ok(None));
}

#[test]
fn the_sentinel_is_sent_once_even_after_the_receiver_closed() {
    let (tx, mut rx, mut inner) = channel::<u32>(2);
    rx.close(&mut inner);
    assert!(!inner.is_terminated());
    assert_eq!(rx.try_next(&mut inner), Ok(None));
    tx.drop(&mut inner);
    assert!(inner.is_terminated());
    assert_eq!(inner.num_messages(), 1);
    assert_eq!(rx.try_next(&mut inner), Ok(None));
    assert_eq!(inner.num_messages(), 0);
    assert_eq!(rx.try_next(&mut inner), Ok(None));
}

#[test]
fn after_the_receiver_closed_every_send_is_disconnected() {
    let (mut a, mut rx, mut inner) = channel::<u32>(0);
    let mut b = a.clone(&mut inner);
    assert_eq!(a.try_send(&mut inner, 1), Ok(()));
    rx.close(&mut inner);
    for i in 0..3 {
        let e = a.try_send(&mut inner, i).unwrap_err();
        assert!(e.is_disconnected());
        assert_eq!(e.into_inner(), i);
        let e = b.try_send(&mut inner, i).unwrap_err();
        assert!(e.is_disconnected());
    }
    let c = b.clone(&mut inner);
    let mut c = c;
    assert!(c.try_send(&mut inner, 9).unwrap_err().is_disconnected());
    assert_eq!(inner.num_messages(), 1);
    assert_eq!(rx.try_next(&mut inner), Ok(Some(1)));
    assert_eq!(rx.try_next(&mut inner), Ok(None));
}

#[test]
fn unbounded_readiness_follows_the_open_flag() {
    let (tx, mut rx, mut inner) = unbounded::<u32>();
    assert_eq!(tx.poll_ready(&inner), Poll::Ready(Ok(())));
    for i in 0..50 {
        assert_eq!(tx.unbounded_send(&mut inner, i), Ok(()));
        assert_eq!(tx.poll_ready(&inner), Poll::Ready(Ok(())));
    }
    assert!(!tx.is_closed(&inner));
    rx.close(&mut inner);
    assert!(tx.is_closed(&inner));
    assert_eq!(tx.poll_ready(&inner), Poll::Ready(Err(SendError::disconnected())));
    let e = tx.unbounded_send(&mut inner, 77).unwrap_err();
    assert!(e.is_disconnected());
    assert_eq!(e.into_inner(), 77);
    assert_eq!(rx.try_next(&mut inner), Ok(Some(0)));
    assert_eq!(tx.poll_ready(&inner), Poll::Ready(Err(SendError::disconnected())));
}

#[test]
fn unbounded_start_send_and_close_channel() {
    let (mut tx, mut rx, mut inner) = unbounded::<u32>();
    let tx2 = tx.clone(&mut inner);
    assert!(tx2.is_attached(&inner));
    assert_eq!(tx.start_send(&mut inner, 1), Ok(()));
    tx2.close_channel(&mut inner);
    assert_eq!(tx.start_send(&mut inner, 2), Err(SendError::disconnected()));
    assert_eq!(rx.try_next(&mut inner), Ok(Some(1)));
    assert_eq!(rx.try_next(&mut inner), Ok(None));
    tx2.drop(&mut inner);
    tx.drop(&mut inner);
    assert_eq!(inner.num_senders(), 0);
    assert_eq!(inner.num_messages(), 0);
}

#[test]
fn without_a_buffer_every_send_parks_its_sender() {
    let (mut a, mut rx, mut inner) = channel::<u32>(0);
    let mut b = a.clone(&mut inner);
    // each sender has one slot of its own
    assert_eq!(a.try_send(&mut inner, 1), Ok(()));
    assert_eq!(b.try_send(&mut inner, 2), Ok(()));
    assert!(a.try_send(&mut inner, 3).unwrap_err().is_full());
    assert!(b.try_send(&mut inner, 4).unwrap_err().is_full());
    assert_eq!(inner.num_messages(), 2);
    // one entry taken lets the sender go that has waited longest
    assert_eq!(rx.try_next(&mut inner), Ok(Some(1)));
    assert!(b.try_send(&mut inner, 4).unwrap_err().is_full());
    assert_eq!(a.try_send(&mut inner, 3), Ok(()));
    assert_eq!(rx.try_next(&mut inner), Ok(Some(2)));
    assert_eq!(b.try_send(&mut inner, 4), Ok(()));
    assert_eq!(rx.try_next(&mut inner), Ok(Some(3)));
    assert_eq!(rx.try_next(&mut inner), Ok(Some(4)));
    assert_eq!(rx.try_next(&mut inner), Err(TryRecvError { _inner: () }));
}

#[test]
fn a_buffer_slot_does_not_park() {
    let (mut tx, _rx, mut inner) = channel::<u32>(2);
    assert_eq!(tx.try_send(&mut inner, 1), Ok(()));
    assert_eq!(tx.try_send(&mut inner, 2), Ok(()));
    // the third message goes into the sender's own slot and parks it
    assert_eq!(tx.try_send(&mut inner, 3), Ok(()));
    assert!(tx.try_send(&mut inner, 4).unwrap_err().is_full());
    assert_eq!(inner.num_messages(), 3);
}

#[test]
fn closing_wakes_every_parked_sender() {
    let (mut a, mut rx, mut inner) = channel::<u32>(0);
    let mut b = a.clone(&mut inner);
    let mut c = a.clone(&mut inner);
    let (ba, wa) = bell();
    let (bb, wb) = bell();
    assert_eq!(a.try_send(&mut inner, 1), Ok(()));
    assert_eq!(b.try_send(&mut inner, 2), Ok(()));
    assert_eq!(c.try_send(&mut inner, 3), Ok(()));
    assert_eq!(a.poll_ready(&mut inner, wa), Poll::Pending);
    assert_eq!(b.poll_ready(&mut inner, wb), Poll::Pending);
    rx.close(&mut inner);
    // the third sender is parked without a waker: there is nothing to invoke
    assert_eq!(wake_all(&mut inner), 2);
    assert_eq!(rings(&ba), 1);
    assert_eq!(rings(&bb), 1);
    let (_, w) = bell();
    assert_eq!(a.poll_ready(&mut inner, w.clone()), Poll::Ready(Err(SendError::disconnected())));
    assert_eq!(c.poll_ready(&mut inner, w), Poll::Ready(Err(SendError::disconnected())));
    assert!(c.try_send(&mut inner, 4).unwrap_err().is_disconnected());
    assert_eq!(rx.try_next(&mut inner), Ok(Some(1)));
    assert_eq!(rx.try_next(&mut inner), Ok(Some(2)));
    assert_eq!(rx.try_next(&mut inner), Ok(Some(3)));
    assert_eq!(rx.try_next(&mut inner), Ok(None));
}

#[test]
fn a_dropped_receiver_drops_the_messages() {
    let witness = Arc::new(());
    let (mut tx, rx, mut inner) = channel::<Arc<()>>(8);
    for _ in 0..5 {
        assert_eq!(tx.try_send(&mut inner, witness.clone()), Ok(()));
    }
    assert_eq!(Arc::strong_count(&witness), 6);
    rx.drop(&mut inner);
    assert_eq!(Arc::strong_count(&witness), 1);
    assert_eq!(inner.num_messages(), 0);
    assert!(!inner.is_open());
    let back = tx.try_send(&mut inner, witness.clone()).unwrap_err();
    assert!(back.is_disconnected());
    drop(back);
    assert_eq!(Arc::strong_count(&witness), 1);
}

#[test]
fn a_dropped_receiver_lets_parked_senders_go() {
    let (mut tx, rx, mut inner) = channel::<u32>(0);
    assert_eq!(tx.try_send(&mut inner, 1), Ok(()));
    let (b, w) = bell();
    assert_eq!(tx.poll_ready(&mut inner, w), Poll::Pending);
    rx.drop(&mut inner);
    assert_eq!(wake_all(&mut inner), 1);
    assert_eq!(rings(&b), 1);
    assert!(tx.try_send(&mut inner, 2).unwrap_err().is_disconnected());
}

#[test]
fn a_waiting_receiver_is_woken_by_the_next_send() {
    let (mut tx, mut rx, mut inner) = channel::<u32>(4);
    let (b, w) = bell();
    assert_eq!(rx.poll_next(&mut inner, w), Poll::Pending);
    assert_eq!(wake_all(&mut inner), 0);
    assert_eq!(tx.try_send(&mut inner, 1), Ok(()));
    assert_eq!(wake_all(&mut inner), 1);
    assert_eq!(rings(&b), 1);
    // a second send finds the receiver signalled already
    assert_eq!(tx.try_send(&mut inner, 2), Ok(()));
    assert_eq!(wake_all(&mut inner), 0);
    let (b2, w2) = bell();
    assert_eq!(rx.poll_next(&mut inner, w2.clone()), Poll::Ready(Some(1)));
    assert_eq!(rx.poll_next(&mut inner, w2.clone()), Poll::Ready(Some(2)));
    assert_eq!(rx.poll_next(&mut inner, w2), Poll::Pending);
    assert_eq!(rings(&b2), 0);
    tx.drop(&mut inner);
    assert_eq!(wake_all(&mut inner), 1);
    assert_eq!(rings(&b2), 1);
}

#[test]
fn try_next_tells_empty_from_ended() {
    let (tx, mut rx, mut inner) = channel::<u32>(1);
    assert_eq!(rx.try_next(&mut inner), Err(TryRecvError { _inner: () }));
    tx.drop(&mut inner);
    assert_eq!(rx.try_next(&mut inner), Ok(None));
    assert_eq!(rx.try_next(&mut inner), Ok(None));
}

#[test]
fn next_message_is_pending_on_an_empty_queue() {
    let (mut tx, mut rx, mut inner) = channel::<u32>(1);
    assert_eq!(rx.next_message(&mut inner), Poll::Pending);
    assert_eq!(tx.try_send(&mut inner, 3), Ok(()));
    assert_eq!(rx.next_message(&mut inner), Poll::Ready(Some(3)));
    assert_eq!(rx.next_message(&mut inner), Poll::Pending);
    rx.close(&mut inner);
    assert_eq!(rx.next_message(&mut inner), Poll::Pending);
}

#[test]
fn senders_come_and_go() {
    let (tx, mut rx, mut inner) = channel::<u32>(0);
    for i in 0..50 {
        let mut t = tx.clone(&mut inner);
        assert_eq!(inner.num_senders(), 2);
        assert!(t.is_attached(&inner));
        assert_eq!(t.try_send(&mut inner, i), Ok(()));
        t.drop(&mut inner);
        assert_eq!(inner.num_senders(), 1);
        assert_eq!(rx.try_next(&mut inner), Ok(Some(i)));
    }
    assert!(tx.is_attached(&inner));
    assert!(inner.is_open());
}

#[test]
fn the_largest_buffer_is_accepted() {
    let (mut tx, mut rx, mut inner) = channel::<u8>(MAX_BUFFER - 1);
    assert_eq!(inner.buffer(), Some(MAX_BUFFER - 1));
    assert_eq!(tx.try_send(&mut inner, 1), Ok(()));
    assert_eq!(tx.try_send(&mut inner, 2), Ok(()));
    assert_eq!(rx.try_next(&mut inner), Ok(Some(1)));
    assert_eq!(rx.try_next(&mut inner), Ok(Some(2)));
}

#[test]
fn unbounded_receiver_polls_and_closes() {
    let (tx, mut rx, mut inner) = unbounded::<u32>();
    let (b, w) = bell();
    assert_eq!(rx.poll_next(&mut inner, w.clone()), Poll::Pending);
    assert_eq!(tx.unbounded_send(&mut inner, 4), Ok(()));
    assert_eq!(wake_all(&mut inner), 1);
    assert_eq!(rings(&b), 1);
    assert_eq!(rx.poll_next(&mut inner, w.clone()), Poll::Ready(Some(4)));
    assert_eq!(tx.unbounded_send(&mut inner, 5), Ok(()));
    rx.close(&mut inner);
    assert_eq!(rx.poll_next(&mut inner, w.clone()), Poll::Ready(Some(5)));
    assert_eq!(rx.poll_next(&mut inner, w), Poll::Ready(None));
    rx.drop(&mut inner);
    tx.drop(&mut inner);
    assert_eq!(inner.num_senders(), 0);
}

#[test]
fn a_sender_dropped_while_parked_is_still_let_go() {
    let (mut a, mut rx, mut inner) = channel::<u32>(0);
    let b = a.clone(&mut inner);
    assert_eq!(a.try_send(&mut inner, 1), Ok(()));
    let (bell_a, w) = bell();
    assert_eq!(a.poll_ready(&mut inner, w), Poll::Pending);
    a.drop(&mut inner);
    assert_eq!(inner.num_senders(), 1);
    assert!(inner.is_open());
    // the cell of the dropped sender waits in the queue with its waker
    assert_eq!(rx.try_next(&mut inner), Ok(Some(1)));
    assert_eq!(wake_all(&mut inner), 1);
    assert_eq!(rings(&bell_a), 1);
    // its cell is free now: the next sender takes it and is not parked
    let mut c = b.clone(&mut inner);
    assert!(c.is_attached(&inner));
    assert_eq!(c.try_send(&mut inner, 2), Ok(()));
    assert!(c.try_send(&mut inner, 3).unwrap_err().is_full());
    assert_eq!(rx.try_next(&mut inner), Ok(Some(2)));
    assert_eq!(c.try_send(&mut inner, 3), Ok(()));
    assert!(b.is_attached(&inner));
}

#[test]
fn try_send_on_a_parked_sender_forgets_the_waker() {
    let (mut tx, mut rx, mut inner) = channel::<u32>(0);
    assert_eq!(tx.try_send(&mut inner, 1), Ok(()));
    let (b, w) = bell();
    assert_eq!(tx.poll_ready(&mut inner, w), Poll::Pending);
    assert!(tx.try_send(&mut inner, 2).unwrap_err().is_full());
    assert_eq!(rx.try_next(&mut inner), Ok(Some(1)));
    assert_eq!(wake_all(&mut inner), 0);
    assert_eq!(rings(&b), 0);
    assert_eq!(tx.try_send(&mut inner, 2), Ok(()));
}

#[test]
fn the_count_follows_sends_and_receives() {
    let (mut tx, mut rx, mut inner) = channel::<u32>(3);
    for i in 0..3u32 {
        assert_eq!(inner.num_messages(), i as usize);
        assert_eq!(tx.try_send(&mut inner, i), Ok(()));
    }
    for i in 0..3u32 {
        assert_eq!(inner.num_messages(), 3 - i as usize);
        assert_eq!(rx.try_next(&mut inner), Ok(Some(i)));
    }
    assert_eq!(inner.num_messages(), 0);
    assert!(inner.is_open());
}

#[test]
fn polling_a_closed_and_empty_channel_clears_the_signal() {
    let (mut tx, mut rx, mut inner) = channel::<u32>(1);
    assert_eq!(tx.try_send(&mut inner, 1), Ok(()));
    assert_eq!(rx.try_next(&mut inner), Ok(Some(1)));
    rx.close(&mut inner);
    let (_, w) = bell();
    // the send has signalled the receiver; the poll looks twice and ends
    assert_eq!(rx.poll_next(&mut inner, w.clone()), Poll::Ready(None));
    assert_eq!(rx.poll_next(&mut inner, w), Poll::Ready(None));
    assert_eq!(wake_all(&mut inner), 0);
}

#[test]
fn wakers_are_invoked_oldest_first() {
    struct Note(usize, Arc<std::sync::Mutex<Vec<usize>>>);
    impl Wake for Note {
        fn wake(self: Arc<Self>) {
            self.1.lock().unwrap().push(self.0);
        }
    }
    let log = Arc::new(std::sync::Mutex::new(Vec::new()));
    let (mut a, mut rx, mut inner) = channel::<u32>(0);
    let mut b = a.clone(&mut inner);
    let mut c = a.clone(&mut inner);
    assert_eq!(a.try_send(&mut inner, 1), Ok(()));
    assert_eq!(b.try_send(&mut inner, 2), Ok(()));
    assert_eq!(c.try_send(&mut inner, 3), Ok(()));
    // the wakers are left in another order than the senders parked in
    assert_eq!(c.poll_ready(&mut inner, Waker::from(Arc::new(Note(3, log.clone())))), Poll::Pending);
    assert_eq!(a.poll_ready(&mut inner, Waker::from(Arc::new(Note(1, log.clone())))), Poll::Pending);
    assert_eq!(b.poll_ready(&mut inner, Waker::from(Arc::new(Note(2, log.clone())))), Poll::Pending);
    rx.close(&mut inner);
    mpsc_channel::task::wake_all(inner.take_wakers());
    assert_eq!(*log.lock().unwrap(), vec![1, 2, 3]);
    mpsc_channel::task::wake_all(Vec::new());
    assert_eq!(*log.lock().unwrap(), vec![1, 2, 3]);
}
