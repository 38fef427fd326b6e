//! Stream plumbing: the byte-copy engine and the idle timer.

use std::time::Duration;
use vstd::prelude::*;

pub mod timer;
pub use timer::StreamTimer;

pub mod copy;
pub use copy::{copy, copy_bi, copy_bi_with_size, copy_with_size};

verus! {

/// A duplex stream that can be handed from task to task.
pub trait StreamTrait: Send + Sync {

}

impl<S: Send + Sync> StreamTrait for S {

}

/// Wrapping in an idle timer, as a method of every stream.
pub trait ToStreamTimer: StreamTrait where Self: Sized {
    fn to_timer(self, timeout: Option<Duration>) -> (t: StreamTimer<Self>)
        ensures
            t.spec_inner() == self,
            t@ == (timer::TimerView { timeout, armed: false }),
    {
        StreamTimer::new(self, timeout)
    }
}

impl<S: StreamTrait> ToStreamTimer for S {

}

} // verus!
