//! A multi-producer, single-consumer channel for cooperatively scheduled
//! tasks, together with the small adapters and task handles that sit
//! around it.
//!
//! The channel is a state machine: all of its state stands in one block,
//! `inner::Inner`, and every operation of a handle takes the block, so
//! that whoever shares a channel between threads decides how the block is
//! guarded. What each operation does is defined in `model`, and `laws`
//! holds what follows for every channel.

pub mod arc_wake;
pub mod channel;
pub mod error;
pub mod flatten;
pub mod fuse;
pub mod inner;
pub mod laws;
pub mod lemmas;
pub mod map_ok;
pub mod model;
pub mod poll_fn;
pub mod queue;
pub mod receiver;
pub mod sender;
pub mod state;
pub mod task;
pub mod task_impl;
pub mod unfold;
