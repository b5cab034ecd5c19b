//! Waking a task through a shared handle.

use vstd::prelude::*;
use std::sync::Arc;

verus! {

/// A way of waking up a specific task.
///
/// By implementing this trait, types that are expected to be wrapped in
/// an `Arc` can be converted into wakers, which signal to whoever drives
/// the task that it is ready to be polled again.
pub trait ArcWake: Send + Sync {
    /// Indicates that the associated task is ready to make progress and
    /// should be polled.
    ///
    /// This function can be called from an arbitrary thread. Unless an
    /// implementation says otherwise, it does what `wake_by_ref` does.
    fn wake(self: Arc<Self>) {
        Self::wake_by_ref(&self)
    }

    /// Indicates that the associated task is ready to make progress and
    /// should be polled.
    ///
    /// This function is similar to `wake`, but must not consume the
    /// provided handle.
    fn wake_by_ref(arc_self: &Arc<Self>);
}

} // verus!
