use mpsc_channel::arc_wake::ArcWake;
use mpsc_channel::task_impl::empty;
use mpsc_channel::task_impl::fresh_task_id;
use mpsc_channel::task_impl::spawn;
use mpsc_channel::task_impl::task_id;
use mpsc_channel::task_impl::Spawn;
use mpsc_channel::task_impl::EventSet;
use mpsc_channel::task_impl::Events;
use mpsc_channel::task_impl::IgnoreUnpark;
use mpsc_channel::task_impl::Task;
use mpsc_channel::task_impl::Unpark;
use mpsc_channel::task_impl::UnparkEvent;
use std::sync::atomic::AtomicUsize;
use std::sync::atomic::Ordering;
use std::sync::Arc;
use std::sync::Mutex;

struct Ids(Mutex<Vec<usize>>);

impl Ids {
    fn new() -> Arc<Ids> {
        Arc::new(Ids(Mutex::new(Vec::new())))
    }

    fn seen(&self) -> Vec<usize> {
        self.0.lock().unwrap().clone()
    }
}

impl EventSet for Ids {
    fn insert(&self, id: usize) {
        self.0.lock().unwrap().push(id);
    }
}

struct Count(AtomicUsize);

impl Unpark for Count {
    fn unpark(&self) {
        self.0.fetch_add(1, Ordering::SeqCst);
    }
}

impl ArcWake for Count {
    fn wake_by_ref(arc_self: &Arc<Self>) {
        arc_self.0.fetch_add(10, Ordering::SeqCst);
    }
}

fn len_of(events: &Events<Ids>) -> usize {
    match events {
        Events::Zero => 0,
        Events::One(_) => 1,
        Events::Lots(list) => list.len(),
    }
}

#[test]
fn task_ids_count_up() {
    let counter = AtomicUsize::new(0);
    assert_eq!(fresh_task_id(&counter), Some(0));
    assert_eq!(fresh_task_id(&counter), Some(1));
    assert_eq!(fresh_task_id(&counter), Some(2));
    assert_eq!(counter.load(Ordering::SeqCst), 3);
}

#[test]
fn task_ids_run_out() {
    let counter = AtomicUsize::new(usize::MAX / 2 - 1);
    assert_eq!(fresh_task_id(&counter), Some(usize::MAX / 2 - 1));
    assert_eq!(fresh_task_id(&counter), None);
    assert_eq!(fresh_task_id(&counter), None);
}

#[test]
fn events_grow_from_zero_to_one_to_lots() {
    let set = Ids::new();
    let zero: Events<Ids> = Events::new();
    assert!(matches!(zero, Events::Zero));
    let one = zero.with_event(UnparkEvent::new(set.clone(), 1));
    assert!(matches!(one, Events::One(_)));
    let two = one.with_event(UnparkEvent::new(set.clone(), 2));
    assert!(matches!(two, Events::Lots(_)));
    assert_eq!(len_of(&two), 2);
    let three = two.with_event(UnparkEvent::new(set.clone(), 3));
    assert_eq!(len_of(&three), 3);
    // the shorter collections are as they were
    assert_eq!(len_of(&one), 1);
    assert_eq!(len_of(&two), 2);
}

#[test]
fn events_trigger_in_the_order_in_which_they_were_added() {
    let set = Ids::new();
    let other = Ids::new();
    let events: Events<Ids> = Events::new();
    events.trigger();
    assert_eq!(set.seen(), Vec::<usize>::new());
    let events = events.with_event(UnparkEvent::new(set.clone(), 7));
    events.trigger();
    assert_eq!(set.seen(), vec![7]);
    let events = events
        .with_event(UnparkEvent::new(other.clone(), 8))
        .with_event(UnparkEvent::new(set.clone(), 9));
    events.trigger();
    // the copies of the events insert into the sets of the events themselves
    assert_eq!(set.seen(), vec![7, 7, 9]);
    assert_eq!(other.seen(), vec![8]);
    assert_eq!(Arc::strong_count(&other), 2);
}

#[test]
fn unpark_triggers_the_events_and_notifies_the_sink() {
    let set = Ids::new();
    let sink = Arc::new(Count(AtomicUsize::new(0)));
    let task: Task<Count, Ids> = Task::new(5, sink.clone());
    task.unpark();
    assert_eq!(sink.0.load(Ordering::SeqCst), 1);
    assert_eq!(set.seen(), Vec::<usize>::new());
    let with_event = task.with_unpark_event(UnparkEvent::new(set.clone(), 11));
    let with_two = with_event.with_unpark_event(UnparkEvent::new(set.clone(), 12));
    with_event.unpark();
    assert_eq!(sink.0.load(Ordering::SeqCst), 2);
    assert_eq!(set.seen(), vec![11]);
    with_two.unpark();
    // the handle with more events notifies the sink of the first handle
    assert_eq!(sink.0.load(Ordering::SeqCst), 3);
    assert_eq!(set.seen(), vec![11, 11, 12]);
    task.unpark();
    assert_eq!(set.seen(), vec![11, 11, 12]);
    assert_eq!(sink.0.load(Ordering::SeqCst), 4);
}

#[test]
fn an_empty_task_ignores_unpark() {
    let counter = AtomicUsize::new(0);
    let task: Task<IgnoreUnpark, Ids> = empty(&counter).unwrap();
    task.unpark();
    let set = Ids::new();
    let task = task.with_unpark_event(UnparkEvent::new(set.clone(), 3));
    task.unpark();
    assert_eq!(set.seen(), vec![3]);
    assert_eq!(counter.load(Ordering::SeqCst), 1);
    let spent = AtomicUsize::new(usize::MAX / 2);
    assert!(empty::<Ids>(&spent).is_none());
}

#[test]
fn spawn_wraps_its_object() {
    let counter = AtomicUsize::new(0);
    let mut spawned = spawn(vec![1, 2], &counter).unwrap();
    assert_eq!(spawned.get_ref(), &vec![1, 2]);
    spawned.get_mut().push(3);
    assert_eq!(spawned.get_ref(), &vec![1, 2, 3]);
    let sink = Arc::new(Count(AtomicUsize::new(0)));
    let task: Task<Count, Ids> = spawned.enter(sink.clone());
    task.unpark();
    assert_eq!(sink.0.load(Ordering::SeqCst), 1);
    assert_eq!(spawned.into_inner(), vec![1, 2, 3]);
    let spent = AtomicUsize::new(usize::MAX / 2);
    assert!(spawn((), &spent).is_none());
}

#[test]
fn arc_wake_goes_through_wake_by_ref() {
    let shared = Arc::new(Count(AtomicUsize::new(0)));
    ArcWake::wake_by_ref(&shared);
    assert_eq!(shared.0.load(Ordering::SeqCst), 10);
    ArcWake::wake(shared.clone());
    assert_eq!(shared.0.load(Ordering::SeqCst), 20);
}

#[test]
fn a_count_below_the_limit_is_an_id() {
    assert_eq!(task_id(0), Some(0));
    assert_eq!(task_id(1), Some(1));
    assert_eq!(task_id(12345), Some(12345));
    assert_eq!(task_id(usize::MAX / 2 - 1), Some(usize::MAX / 2 - 1));
}

#[test]
fn a_count_at_the_limit_is_no_id() {
    assert_eq!(task_id(usize::MAX / 2), None);
    assert_eq!(task_id(usize::MAX / 2 + 1), None);
    assert_eq!(task_id(usize::MAX), None);
}

#[test]
fn fresh_ids_are_the_counts_of_the_counter() {
    let counter = AtomicUsize::new(40);
    assert_eq!(fresh_task_id(&counter), task_id(40));
    assert_eq!(fresh_task_id(&counter), task_id(41));
    assert_eq!(counter.load(Ordering::SeqCst), 42);
    let spent = AtomicUsize::new(usize::MAX / 2);
    assert_eq!(fresh_task_id(&spent), task_id(usize::MAX / 2));
    // the counter goes on also when it hands out no id
    assert_eq!(spent.load(Ordering::SeqCst), usize::MAX / 2 + 1);
}

#[test]
fn a_spawn_is_made_of_its_object_and_its_id() {
    let mut made = Spawn::new(String::from("work"), 9);
    assert_eq!(made.get_ref(), "work");
    made.get_mut().push_str("ing");
    let sink = Arc::new(Count(AtomicUsize::new(0)));
    let task: Task<Count, Ids> = made.enter(sink.clone());
    task.unpark();
    assert_eq!(sink.0.load(Ordering::SeqCst), 1);
    assert_eq!(made.into_inner(), "working");
}

#[test]
fn spawn_takes_one_id_for_each_object() {
    let counter = AtomicUsize::new(usize::MAX / 2 - 2);
    assert!(spawn('a', &counter).is_some());
    assert!(spawn('b', &counter).is_some());
    assert!(spawn('c', &counter).is_none());
    assert!(empty::<Ids>(&counter).is_none());
    assert_eq!(counter.load(Ordering::SeqCst), usize::MAX / 2 + 2);
}
