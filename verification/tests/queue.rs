use mpsc_channel::queue::PopResult;
use mpsc_channel::queue::Queue;

fn data<T>(r: PopResult<T>) -> Option<T> {
    match r {
        PopResult::Data(t) => Some(t),
        PopResult::Empty => None,
        PopResult::Inconsistent => panic!("a queue held by one task is never inconsistent"),
    }
}

#[test]
fn a_new_queue_is_empty() {
    let mut q: Queue<u32> = Queue::new();
    assert!(q.is_empty());
    assert_eq!(q.len(), 0);
    assert!(matches!(q.pop(), PopResult::Empty));
    assert!(q.is_empty());
}

#[test]
fn entries_leave_in_the_order_in_which_they_came() {
    let mut q = Queue::new();
    for i in 0..10u32 {
        q.push(i);
    }
    assert_eq!(q.len(), 10);
    assert!(!q.is_empty());
    for i in 0..10u32 {
        assert_eq!(data(q.pop()), Some(i));
    }
    assert_eq!(data(q.pop()), None);
}

#[test]
fn pushes_and_pops_interleave() {
    let mut q = Queue::new();
    q.push('a');
    q.push('b');
    assert_eq!(data(q.pop()), Some('a'));
    q.push('c');
    assert_eq!(q.len(), 2);
    assert_eq!(data(q.pop()), Some('b'));
    assert_eq!(data(q.pop()), Some('c'));
    assert_eq!(data(q.pop()), None);
    q.push('d');
    assert_eq!(data(q.pop()), Some('d'));
}
