use mpsc_channel::channel::channel;
use mpsc_channel::channel::unbounded;
use mpsc_channel::state::decode_state;
use mpsc_channel::state::encode_state;
use mpsc_channel::state::State;
use mpsc_channel::state::INIT_STATE;
use mpsc_channel::state::MAX_BUFFER;
use mpsc_channel::state::MAX_CAPACITY;
use mpsc_channel::state::OPEN_MASK;

#[test]
fn masks_have_their_values() {
    assert_eq!(OPEN_MASK, 1usize << (usize::BITS - 1));
    assert_eq!(OPEN_MASK, usize::MAX - (usize::MAX >> 1));
    assert_eq!(MAX_CAPACITY, usize::MAX >> 1);
    assert_eq!(MAX_CAPACITY, !OPEN_MASK);
    assert_eq!(MAX_BUFFER, MAX_CAPACITY >> 1);
    assert_eq!(INIT_STATE, OPEN_MASK);
}

#[test]
fn decode_splits_the_word() {
    assert_eq!(decode_state(0), State { is_open: false, num_messages: 0 });
    assert_eq!(decode_state(7), State { is_open: false, num_messages: 7 });
    assert_eq!(decode_state(INIT_STATE), State { is_open: true, num_messages: 0 });
    assert_eq!(decode_state(OPEN_MASK | 42), State { is_open: true, num_messages: 42 });
    assert_eq!(decode_state(usize::MAX), State { is_open: true, num_messages: MAX_CAPACITY });
    assert_eq!(decode_state(MAX_CAPACITY), State { is_open: false, num_messages: MAX_CAPACITY });
}

#[test]
fn encode_packs_the_word() {
    assert_eq!(encode_state(&State { is_open: false, num_messages: 0 }), 0);
    assert_eq!(encode_state(&State { is_open: true, num_messages: 0 }), OPEN_MASK);
    assert_eq!(encode_state(&State { is_open: true, num_messages: 5 }), OPEN_MASK + 5);
    assert_eq!(encode_state(&State { is_open: false, num_messages: 5 }), 5);
    assert_eq!(encode_state(&State { is_open: true, num_messages: MAX_CAPACITY }), usize::MAX);
}

#[test]
fn encode_and_decode_are_inverse() {
    for &n in &[0usize, 1, 2, 1000, MAX_BUFFER, MAX_CAPACITY - 1, MAX_CAPACITY] {
        for &open in &[false, true] {
            let state = State { is_open: open, num_messages: n };
            assert_eq!(decode_state(encode_state(&state)), state);
        }
    }
    for &w in &[0usize, 1, OPEN_MASK, OPEN_MASK + 1, usize::MAX, usize::MAX - 1, 12345] {
        assert_eq!(encode_state(&decode_state(w)), w);
    }
}

#[test]
fn max_senders_leaves_room_for_the_buffer() {
    let (_tx, _rx, inner) = channel::<u8>(10);
    assert_eq!(inner.max_senders(), MAX_CAPACITY - 10);
    assert_eq!(inner.buffer(), Some(10));
    let (_tx, _rx, inner) = channel::<u8>(0);
    assert_eq!(inner.max_senders(), MAX_CAPACITY);
    let (_tx, _rx, inner) = channel::<u8>(MAX_BUFFER - 1);
    assert_eq!(inner.max_senders(), MAX_CAPACITY - (MAX_BUFFER - 1));
    let (_tx, _rx, inner) = unbounded::<u8>();
    assert_eq!(inner.max_senders(), MAX_BUFFER);
    assert_eq!(inner.buffer(), None);
}

#[test]
fn a_new_channel_is_open_and_empty() {
    let (tx, _rx, inner) = channel::<u8>(3);
    assert!(inner.is_open());
    assert!(!inner.is_terminated());
    assert_eq!(inner.num_messages(), 0);
    assert_eq!(inner.num_senders(), 1);
    assert!(inner.has_room());
    assert!(inner.can_add_sender());
    assert!(tx.is_attached(&inner));
    assert!(!tx.is_closed(&inner));
}
