use mpsc_channel::channel::channel;
use mpsc_channel::channel::unbounded;
use mpsc_channel::error::SendErrorKind;
use std::sync::atomic::AtomicUsize;
use std::sync::atomic::Ordering;
use std::sync::Arc;
use std::task::Poll;
use std::task::Wake;
use std::task::Waker;

struct Counter(AtomicUsize);

impl Wake for Counter {
    fn wake(self: Arc<Self>) {
        self.0.fetch_add(1, Ordering::SeqCst);
    }
}

fn counting_waker() -> (Arc<Counter>, Waker) {
    let counter = Arc::new(Counter(AtomicUsize::new(0)));
    (counter.clone(), Waker::from(counter))
}

fn wake_all(wakers: Vec<Waker>) {
    for w in wakers {
        w.wake();
    }
}

#[test]
fn single_value_round_trip() {
    let (mut tx, mut rx, mut inner) = channel::<i32>(1);
    assert_eq!(tx.try_send(&mut inner, 42), Ok(()));
    assert_eq!(rx.try_next(&mut inner), Ok(Some(42)));
    tx.drop(&mut inner);
    assert_eq!(rx.try_next(&mut inner), Ok(None));
}

#[test]
fn backpressure() {
    let (mut tx, mut rx, mut inner) = channel::<i32>(0);
    assert_eq!(tx.try_send(&mut inner, 1), Ok(()));
    let err = tx.try_send(&mut inner, 2).unwrap_err();
    assert!(err.is_full());
    assert!(!err.is_disconnected());
    assert_eq!(err.into_inner(), 2);
    assert_eq!(rx.try_next(&mut inner), Ok(Some(1)));
    assert_eq!(tx.try_send(&mut inner, 2), Ok(()));
}

#[test]
fn disconnect_on_receive_side() {
    let (mut tx, rx, mut inner) = channel::<i32>(4);
    assert_eq!(tx.try_send(&mut inner, 7), Ok(()));
    rx.drop(&mut inner);
    let err = tx.try_send(&mut inner, 8).unwrap_err();
    assert!(err.is_disconnected());
    assert_eq!(err.err.kind, SendErrorKind::Disconnected);
    assert_eq!(err.into_inner(), 8);
    assert_eq!(inner.num_messages(), 0);
}

#[test]
fn multi_producer_ordering() {
    let (a, mut rx, mut inner) = unbounded::<(char, u32)>();
    let b = a.clone(&mut inner);
    assert_eq!(a.unbounded_send(&mut inner, ('a', 1)), Ok(()));
    assert_eq!(b.unbounded_send(&mut inner, ('b', 1)), Ok(()));
    assert_eq!(b.unbounded_send(&mut inner, ('b', 2)), Ok(()));
    assert_eq!(a.unbounded_send(&mut inner, ('a', 2)), Ok(()));
    assert_eq!(a.unbounded_send(&mut inner, ('a', 3)), Ok(()));
    assert_eq!(b.unbounded_send(&mut inner, ('b', 3)), Ok(()));
    let mut seen = Vec::new();
    while let Ok(Some(m)) = rx.try_next(&mut inner) {
        seen.push(m);
    }
    assert_eq!(seen.len(), 6);
    let of_a: Vec<u32> = seen.iter().filter(|m| m.0 == 'a').map(|m| m.1).collect();
    let of_b: Vec<u32> = seen.iter().filter(|m| m.0 == 'b').map(|m| m.1).collect();
    assert_eq!(of_a, vec![1, 2, 3]);
    assert_eq!(of_b, vec![1, 2, 3]);
    assert_eq!(seen, vec![('a', 1), ('b', 1), ('b', 2), ('a', 2), ('a', 3), ('b', 3)]);
}

#[test]
fn clean_shutdown() {
    let (mut tx, mut rx, mut inner) = channel::<i32>(2);
    let mut tx2 = tx.clone(&mut inner);
    assert_eq!(tx.try_send(&mut inner, 1), Ok(()));
    assert_eq!(tx2.try_send(&mut inner, 2), Ok(()));
    rx.close(&mut inner);
    let (_, w1) = counting_waker();
    let (_, w2) = counting_waker();
    match tx.poll_ready(&mut inner, w1) {
        Poll::Ready(Err(e)) => assert!(e.is_disconnected()),
        _ => panic!("a closed channel is not ready"),
    }
    match tx2.poll_ready(&mut inner, w2) {
        Poll::Ready(Err(e)) => assert!(e.is_disconnected()),
        _ => panic!("a closed channel is not ready"),
    }
    assert!(tx.is_closed(&inner));
    let (_, w) = counting_waker();
    assert_eq!(rx.poll_next(&mut inner, w.clone()), Poll::Ready(Some(1)));
    assert_eq!(rx.poll_next(&mut inner, w.clone()), Poll::Ready(Some(2)));
    assert_eq!(rx.poll_next(&mut inner, w.clone()), Poll::Ready(None));
    assert_eq!(rx.poll_next(&mut inner, w), Poll::Ready(None));
}

#[test]
fn last_sender_drop() {
    let (mut t1, mut rx, mut inner) = channel::<i32>(0);
    let mut t2 = t1.clone(&mut inner);
    let mut t3 = t1.clone(&mut inner);
    assert_eq!(inner.num_senders(), 3);
    assert_eq!(t1.try_send(&mut inner, 10), Ok(()));
    t1.drop(&mut inner);
    assert_eq!(t2.try_send(&mut inner, 20), Ok(()));
    t2.drop(&mut inner);
    assert_eq!(t3.try_send(&mut inner, 30), Ok(()));
    t3.drop(&mut inner);
    assert_eq!(inner.num_senders(), 0);
    let mut got = Vec::new();
    for _ in 0..3 {
        match rx.try_next(&mut inner) {
            Ok(Some(v)) => got.push(v),
            other => panic!("expected a value, got {:?}", other),
        }
    }
    got.sort();
    assert_eq!(got, vec![10, 20, 30]);
    assert_eq!(rx.try_next(&mut inner), Ok(None));
    wake_all(inner.take_wakers());
}
