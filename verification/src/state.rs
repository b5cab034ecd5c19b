//! The packed state word of a channel: the open flag and the message count
//! share one machine word, so that both change in a single step.

use vstd::prelude::*;

verus! {

/// The open flag lives in the most significant bit of the word.
pub const OPEN_MASK: usize = !(!0usize >> 1);

/// A fresh channel is open and holds no message.
pub const INIT_STATE: usize = OPEN_MASK;

/// Largest message count that the word can track.
pub const MAX_CAPACITY: usize = !0usize >> 1;

/// A requested buffer must stay below this, because every sender gets one
/// slot of its own on top of the buffer.
pub const MAX_BUFFER: usize = !0usize >> 2;

/// Decoded form of the state word.
#[derive(Clone, Copy, Debug, PartialEq, Eq, Structural)]
pub struct State {
    /// `true` while the channel accepts values.
    pub is_open: bool,
    /// Number of entries accounted for in the message queue.
    pub num_messages: usize,
}

/// The flag and the count that a word stands for.
pub open spec fn spec_decode(num: usize) -> State {
    State { is_open: num & OPEN_MASK == OPEN_MASK, num_messages: num & MAX_CAPACITY }
}

/// The word that stands for a flag and a count.
pub open spec fn spec_encode(state: State) -> usize {
    if state.is_open {
        state.num_messages | OPEN_MASK
    } else {
        state.num_messages
    }
}

/// Splits a state word into its flag and its count.
pub fn decode_state(num: usize) -> (state: State)
    ensures
        state == spec_decode(num),
        state.num_messages <= MAX_CAPACITY,
{
    assert(num & MAX_CAPACITY <= MAX_CAPACITY) by (bit_vector);
    State { is_open: num & OPEN_MASK == OPEN_MASK, num_messages: num & MAX_CAPACITY }
}

/// Packs a flag and a count into one word.
pub fn encode_state(state: &State) -> (num: usize)
    ensures
        num == spec_encode(*state),
        state.num_messages <= MAX_CAPACITY ==> spec_decode(num) == *state,
{
    let mut num: usize = state.num_messages;
    if state.is_open {
        num |= OPEN_MASK;
    }
    proof {
        if state.num_messages <= MAX_CAPACITY {
            law_decode_encode(*state);
        }
    }
    num
}

/// Decoding an encoded state gives the state back, as long as the count
/// fits below the flag bit.
pub proof fn law_decode_encode(state: State)
    requires
        state.num_messages <= MAX_CAPACITY,
    ensures
        spec_decode(spec_encode(state)) == state,
{
    let n = state.num_messages;
    assert(n <= MAX_CAPACITY ==> (n | OPEN_MASK) & OPEN_MASK == OPEN_MASK && (n | OPEN_MASK)
        & MAX_CAPACITY == n && n & MAX_CAPACITY == n && n & OPEN_MASK != OPEN_MASK)
        by (bit_vector);
}

/// Encoding a decoded word gives the word back: the two halves of the word
/// lose nothing.
pub proof fn law_encode_decode(num: usize)
    ensures
        spec_encode(spec_decode(num)) == num,
        spec_decode(num).num_messages <= MAX_CAPACITY,
{
    assert(num & MAX_CAPACITY <= MAX_CAPACITY) by (bit_vector);
    assert(num & OPEN_MASK == OPEN_MASK ==> (num & MAX_CAPACITY) | OPEN_MASK == num)
        by (bit_vector);
    assert(num & OPEN_MASK != OPEN_MASK ==> num & MAX_CAPACITY == num) by (bit_vector);
}

/// The initial word decodes to an open channel without messages.
pub proof fn lemma_init_state()
    ensures
        spec_decode(INIT_STATE) == (State { is_open: true, num_messages: 0 }),
{
    assert(OPEN_MASK & OPEN_MASK == OPEN_MASK && OPEN_MASK & MAX_CAPACITY == 0) by (bit_vector);
}

} // verus!
