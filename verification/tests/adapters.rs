use mpsc_channel::flatten::Flatten;
use mpsc_channel::flatten::Step;
use mpsc_channel::fuse::Fuse;
use mpsc_channel::map_ok::MapOk;
use mpsc_channel::poll_fn::poll_fn;
use mpsc_channel::unfold::unfold;
use std::task::Poll;

fn returned<T>(step: Step<T>) -> Option<Poll<Option<T>>> {
    match step {
        Step::Return(r) => Some(r),
        Step::Continue => None,
    }
}

#[test]
fn fuse_passes_items_until_the_end() {
    let mut fuse = Fuse::new(vec![1, 2, 3]);
    assert!(!fuse.is_done());
    assert_eq!(fuse.poll_next(Poll::Ready(Some(1))), Poll::Ready(Some(1)));
    assert_eq!(fuse.poll_next(Poll::<Option<i32>>::Pending), Poll::Pending);
    assert!(!fuse.is_done());
    assert_eq!(fuse.poll_next(Poll::<Option<i32>>::Ready(None)), Poll::Ready(None));
    assert!(fuse.is_done());
}

#[test]
fn fuse_stays_ended() {
    let mut fuse = Fuse::new(());
    assert_eq!(fuse.poll_next(Poll::<Option<i32>>::Ready(None)), Poll::Ready(None));
    assert_eq!(fuse.poll_next(Poll::Ready(Some(7))), Poll::Ready(None));
    assert_eq!(fuse.poll_next(Poll::<Option<i32>>::Pending), Poll::Ready(None));
    assert!(fuse.is_done());
}

#[test]
fn fuse_gives_its_stream_back() {
    let mut fuse = Fuse::new(String::from("stream"));
    assert_eq!(fuse.get_ref(), "stream");
    fuse.get_mut().push_str("!");
    assert_eq!(fuse.get_ref(), "stream!");
    assert!(!fuse.is_done());
    assert_eq!(fuse.into_inner(), "stream!");
}

#[test]
fn map_ok_maps_values_only() {
    let map = MapOk::new((), |x: i32| x * 2);
    assert_eq!(map.poll_next(Poll::Ready(Some(Ok::<i32, &str>(21)))), Poll::Ready(Some(Ok(42))));
    assert_eq!(
        map.poll_next(Poll::Ready(Some(Err::<i32, &str>("bad")))),
        Poll::Ready(Some(Err("bad")))
    );
    assert_eq!(map.poll_next(Poll::<Option<Result<i32, &str>>>::Ready(None)), Poll::Ready(None));
    assert_eq!(map.poll_next(Poll::<Option<Result<i32, &str>>>::Pending), Poll::Pending);
}

#[test]
fn map_ok_gives_its_stream_back() {
    let mut map = MapOk::new(vec![1u8], |x: u8| x);
    assert_eq!(map.get_ref(), &vec![1u8]);
    map.get_mut().push(2);
    assert_eq!(map.get_ref(), &vec![1u8, 2]);
    assert_eq!(map.into_inner(), vec![1u8, 2]);
}

#[test]
fn flatten_runs_through_inner_streams() {
    let mut flat: Flatten<&str, Vec<u8>> = Flatten::new("outer");
    assert!(flat.needs_outer());
    assert!(returned(flat.on_outer::<u8>(Poll::Ready(Some(vec![1, 2])))).is_none());
    assert!(!flat.needs_outer());
    assert_eq!(flat.next_mut().as_ref(), Some(&vec![1, 2]));
    assert_eq!(returned(flat.on_inner(Poll::Ready(Some(1u8)))), Some(Poll::Ready(Some(1))));
    assert!(!flat.needs_outer());
    assert_eq!(returned(flat.on_inner(Poll::<Option<u8>>::Pending)), Some(Poll::Pending));
    assert!(!flat.needs_outer());
    // the end of the inner stream sends the step back to the outer stream
    assert!(returned(flat.on_inner(Poll::<Option<u8>>::Ready(None))).is_none());
    assert!(flat.needs_outer());
    assert_eq!(returned(flat.on_outer::<u8>(Poll::Pending)), Some(Poll::Pending));
    assert_eq!(returned(flat.on_outer::<u8>(Poll::Ready(None))), Some(Poll::Ready(None)));
    assert!(flat.needs_outer());
}

#[test]
fn flatten_is_terminated_with_its_outer_stream() {
    let mut flat: Flatten<(), ()> = Flatten::new(());
    assert!(!flat.is_terminated(false));
    assert!(flat.is_terminated(true));
    assert!(returned(flat.on_outer::<u8>(Poll::Ready(Some(())))).is_none());
    assert!(!flat.is_terminated(true));
    assert!(!flat.is_terminated(false));
}

#[test]
fn flatten_gives_its_stream_back() {
    let mut flat: Flatten<Vec<u8>, ()> = Flatten::new(vec![1]);
    assert_eq!(flat.get_ref(), &vec![1]);
    flat.get_mut().push(2);
    assert_eq!(flat.into_inner(), vec![1, 2]);
}

#[test]
fn unfold_steps_from_state_to_state() {
    // the "future" of a state is the state doubled
    let mut stream = unfold(1u32, |state: u32| state * 2);
    assert!(stream.can_poll());
    stream.start();
    assert_eq!(*stream.future_mut(), Some(2));
    // while the future is pending nothing changes
    assert_eq!(stream.finish(Poll::<Option<(char, u32)>>::Pending), Poll::Pending);
    assert_eq!(*stream.future_mut(), Some(2));
    stream.start();
    assert_eq!(*stream.future_mut(), Some(2));
    // the future completes with an item and the next state
    assert_eq!(stream.finish(Poll::Ready(Some(('a', 10)))), Poll::Ready(Some('a')));
    assert_eq!(*stream.future_mut(), None);
    assert!(stream.can_poll());
    stream.start();
    assert_eq!(*stream.future_mut(), Some(20));
    // the future completes with nothing: the stream has ended
    assert_eq!(stream.finish(Poll::<Option<(char, u32)>>::Ready(None)), Poll::Ready(None));
    assert_eq!(*stream.future_mut(), None);
    assert!(!stream.can_poll());
}

#[test]
fn poll_fn_calls_its_function() {
    let mut calls = 0;
    let mut future = poll_fn(|limit: u32| {
        calls += 1;
        if calls < limit {
            Poll::Pending
        } else {
            Poll::Ready(calls)
        }
    });
    assert_eq!(future.poll(3), Poll::Pending);
    assert_eq!(future.poll(3), Poll::Pending);
    assert_eq!(future.poll(3), Poll::Ready(3));
}
