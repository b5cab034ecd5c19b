//! Tasks: handles by which a piece of work that waits is told to go on,
//! and the objects that are driven as tasks.

use vstd::prelude::*;
use std::sync::atomic::AtomicUsize;
use std::sync::atomic::Ordering;
use std::sync::Arc;

verus! {

/// A sink of notifications that a task is ready to make progress.
///
/// Whoever drives tasks implements this: `unpark` arranges for the task
/// to be polled again soon.
pub trait Unpark: Send + Sync {
    /// Indicates that an associated task is ready to make progress.
    fn unpark(&self);
}

/// A concurrent set which allows for the insertion of `usize` values.
///
/// `EventSet`s are used to tell a task which events caused it to be
/// unparked.
pub trait EventSet: Send + Sync + 'static {
    /// Insert the given ID into the set
    fn insert(&self, id: usize);
}

/// A set insertion to trigger upon `unpark`. The set may be of any type
/// that takes insertions, a trait object too.
pub struct UnparkEvent<S: EventSet + ?Sized> {
    set: Arc<S>,
    item: usize,
}

/// A collection of unpark events to trigger on `unpark`.
pub enum Events<S: EventSet + ?Sized> {
    Zero,
    One(UnparkEvent<S>),
    Lots(Vec<UnparkEvent<S>>),
}

/// A handle to a task: a single lightweight thread of execution that
/// drives a future to completion. The sink that it notifies may be of any
/// type that takes notifications, a trait object too.
pub struct Task<U: Unpark + ?Sized, S: EventSet + ?Sized> {
    id: usize,
    unpark: Arc<U>,
    events: Events<S>,
}

/// An object that is driven as a task, together with the id of its task.
pub struct Spawn<T> {
    obj: T,
    id: usize,
}

/// The sink that ignores every notification.
pub struct IgnoreUnpark;

impl Unpark for IgnoreUnpark {
    fn unpark(&self) {
    }
}

/// `Arc::clone`: a second handle to the same shared value. To Verus an
/// `Arc` is the value that it points to, so the two handles are equal.
#[verifier::external_body]
fn clone_arc<V: ?Sized>(shared: &Arc<V>) -> (r: Arc<V>)
    ensures
        r == *shared,
{
    shared.clone()
}

/// Takes the next task id from `counter`, or none if the ids are used up.
///
/// The counter is shared, so the count that it gives is not known before
/// it is asked. The count is handed to `task_id`, which says for every
/// count what becomes of it; whatever the count was, an id that is handed
/// out is below the limit.
pub fn fresh_task_id(counter: &AtomicUsize) -> (r: Option<usize>)
    ensures
        exists|count: usize| r == #[trigger] spec_task_id(count),
        r matches Some(id) ==> id < max_task_id(),
{
    let count = counter.fetch_add(1, Ordering::Relaxed);
    task_id(count)
}

/// Creates a new Task that ignores unpark events, with the next id from
/// `counter`; none if the ids are used up.
///
/// The handle is what `Task::new` makes of the id that `fresh_task_id` has
/// handed out and of the sink that ignores every notification.
pub fn empty<S: EventSet + ?Sized>(counter: &AtomicUsize) -> (r: Option<Task<IgnoreUnpark, S>>)
    ensures
        r matches Some(task) ==> task.id() < max_task_id() && task.events() is Zero,
{
    match fresh_task_id(counter) {
        Some(id) => Some(Task::new(id, Arc::new(IgnoreUnpark))),
        None => None,
    }
}

/// Makes a task of the given object, which is normally a future or a
/// stream, with the next id from `counter`; none if the ids are used up.
///
/// The object does not make progress until the methods on `Spawn` are
/// called in turn.
pub fn spawn<T>(obj: T, counter: &AtomicUsize) -> (r: Option<Spawn<T>>)
    ensures
        r matches Some(s) ==> s.obj() == obj && s.id() < max_task_id(),
{
    match fresh_task_id(counter) {
        Some(id) => Some(Spawn::new(obj, id)),
        None => None,
    }
}

/// Largest id that a task can have.
pub open spec fn max_task_id() -> usize {
    (usize::MAX / 2) as usize
}

/// What becomes of a count that the counter of task ids gives: it is the
/// id of the next task as long as it is below the limit.
pub open spec fn spec_task_id(count: usize) -> Option<usize> {
    if count < max_task_id() {
        Some(count)
    } else {
        None
    }
}

/// The task id that a count of the counter stands for, or none if the
/// ids are used up: the ids end at half of what a word can count, so that
/// a counter that is asked on and on does not come round to an id that is
/// in use.
pub fn task_id(count: usize) -> (r: Option<usize>)
    ensures
        r == spec_task_id(count),
{
    if count < usize::MAX / 2 {
        Some(count)
    } else {
        None
    }
}

impl<S: EventSet + ?Sized> UnparkEvent<S> {
    /// The set that the event inserts into.
    pub closed spec fn set(&self) -> Arc<S> {
        self.set
    }

    /// The id that the event inserts.
    pub closed spec fn item(&self) -> usize {
        self.item
    }

    /// Construct an unpark event that will insert `id` into `set` when
    /// triggered.
    pub fn new(set: Arc<S>, id: usize) -> (event: UnparkEvent<S>)
        ensures
            event.set() == set,
            event.item() == id,
    {
        UnparkEvent { set, item: id }
    }
}

impl<S: EventSet + ?Sized> Clone for UnparkEvent<S> {
    fn clone(&self) -> (r: Self)
        ensures
            r == *self,
    {
        UnparkEvent { set: clone_arc(&self.set), item: self.item }
    }
}

impl<S: EventSet + ?Sized> View for Events<S> {
    type V = Seq<UnparkEvent<S>>;

    /// The events, in the order in which they were added.
    open spec fn view(&self) -> Seq<UnparkEvent<S>> {
        match *self {
            Events::Zero => Seq::empty(),
            Events::One(event) => seq![event],
            Events::Lots(list) => list@,
        }
    }
}

impl<S: EventSet + ?Sized> Clone for Events<S> {
    fn clone(&self) -> (r: Self)
        ensures
            r@ == self@,
            r is Zero == *self is Zero,
            r is One == *self is One,
    {
        match self {
            Events::Zero => Events::Zero,
            Events::One(event) => Events::One(event.clone()),
            Events::Lots(all) => {
                let mut list: Vec<UnparkEvent<S>> = Vec::new();
                let mut i: usize = 0;
                while i < all.len()
                    invariant
                        i <= all.len(),
                        list@ == all@.take(i as int),
                    decreases all.len() - i,
                {
                    list.push(all[i].clone());
                    assert(all@.take(i + 1) =~= all@.take(i as int).push(all@[i as int]));
                    i = i + 1;
                }
                assert(all@.take(all.len() as int) =~= all@);
                Events::Lots(list)
            },
        }
    }
}

impl<S: EventSet + ?Sized> Events<S> {
    /// No events.
    pub fn new() -> (events: Events<S>)
        ensures
            events is Zero,
    {
        Events::Zero
    }

    /// Triggers every event: each inserts its id into its set.
    pub fn trigger(&self) {
        match self {
            Events::Zero => {},
            Events::One(event) => event.set.insert(event.item),
            Events::Lots(list) => {
                let mut i: usize = 0;
                while i < list.len()
                    invariant
                        i <= list.len(),
                    decreases list.len() - i,
                {
                    list[i].set.insert(list[i].item);
                    i = i + 1;
                }
            },
        }
    }

    /// These events and one more.
    pub fn with_event(&self, event: UnparkEvent<S>) -> (events: Events<S>)
        ensures
            events@ == self@.push(event),
            *self is Zero ==> events == Events::One(event),
            !(*self is Zero) ==> events is Lots,
    {
        let mut list: Vec<UnparkEvent<S>> = Vec::new();
        match self {
            Events::Zero => {
                return Events::One(event);
            },
            Events::One(first) => {
                list.push(first.clone());
            },
            Events::Lots(all) => {
                let mut i: usize = 0;
                while i < all.len()
                    invariant
                        i <= all.len(),
                        list@ == all@.take(i as int),
                    decreases all.len() - i,
                {
                    list.push(all[i].clone());
                    assert(all@.take(i + 1) =~= all@.take(i as int).push(all@[i as int]));
                    i = i + 1;
                }
                assert(all@.take(all.len() as int) =~= all@);
            },
        }
        list.push(event);
        assert(list@ =~= self@.push(event));
        Events::Lots(list)
    }
}

impl<U: Unpark + ?Sized, S: EventSet + ?Sized> Clone for Task<U, S> {
    fn clone(&self) -> (r: Self)
        ensures
            r.id() == self.id(),
            r.sink() == self.sink(),
            r.events()@ == self.events()@,
    {
        Task { id: self.id, unpark: clone_arc(&self.unpark), events: self.events.clone() }
    }
}

impl<U: Unpark + ?Sized, S: EventSet + ?Sized> Task<U, S> {
    /// The id of the task.
    pub closed spec fn id(&self) -> usize {
        self.id
    }

    /// The sink that the task notifies.
    pub closed spec fn sink(&self) -> Arc<U> {
        self.unpark
    }

    /// The events that the task triggers.
    pub closed spec fn events(&self) -> Events<S> {
        self.events
    }

    /// A handle for the task `id` that notifies `unpark`.
    pub fn new(id: usize, unpark: Arc<U>) -> (task: Task<U, S>)
        ensures
            task.id() == id,
            task.sink() == unpark,
            task.events() is Zero,
    {
        Task { id, unpark, events: Events::new() }
    }

    /// Indicate that the task should attempt to poll its future in a
    /// timely fashion: the events of the handle are triggered, then the
    /// sink is notified.
    pub fn unpark(&self) {
        self.events.trigger();
        self.unpark.unpark();
    }

    /// A handle to the same task that triggers one event more.
    ///
    /// Unpark events are used to pass information about what event caused
    /// a task to be unparked: when fired, an event inserts an identifier
    /// into a set, which the task can read.
    pub fn with_unpark_event(&self, event: UnparkEvent<S>) -> (task: Task<U, S>)
        ensures
            task.id() == self.id(),
            task.sink() == self.sink(),
            task.events()@ == self.events()@.push(event),
    {
        Task {
            id: self.id,
            unpark: clone_arc(&self.unpark),
            events: self.events.with_event(event),
        }
    }
}

impl<T> Spawn<T> {
    /// The object that is driven.
    pub closed spec fn obj(&self) -> T {
        self.obj
    }

    /// The id of the task.
    pub closed spec fn id(&self) -> usize {
        self.id
    }

    /// The task with the id `id` that drives `obj`.
    pub fn new(obj: T, id: usize) -> (spawn: Spawn<T>)
        ensures
            spawn.obj() == obj,
            spawn.id() == id,
    {
        Spawn { obj, id }
    }

    /// Get a shared reference to the object the Spawn is wrapping.
    pub fn get_ref(&self) -> (obj: &T)
        ensures
            *obj == self.obj(),
    {
        &self.obj
    }

    /// Get a mutable reference to the object the Spawn is wrapping.
    pub fn get_mut(&mut self) -> (obj: &mut T)
        ensures
            *obj == old(self).obj(),
            final(self).obj() == *final(obj),
            final(self).id() == old(self).id(),
    {
        &mut self.obj
    }

    /// Consume the Spawn, returning its inner object
    pub fn into_inner(self) -> (obj: T)
        ensures
            obj == self.obj(),
    {
        self.obj
    }

    /// Makes the handle under which the object is polled: it has the id
    /// of the object, notifies `unpark` and triggers no events.
    pub fn enter<U: Unpark + ?Sized, S: EventSet + ?Sized>(&self, unpark: Arc<U>) -> (task: Task<
        U,
        S,
    >)
        ensures
            task.id() == self.id(),
            task.sink() == unpark,
            task.events() is Zero,
    {
        Task::new(self.id, unpark)
    }
}

} // verus!
