//! The idle timer: a wrapper that fails a read which stays pending for
//! longer than a timeout. Writes, flushes and shutdowns pass through.
//!
//! The wrapper decides; the driver polls the wrapped stream and the sleep
//! and reports what they gave. The timer is idle, not a deadline: every
//! completed read disarms it, and the next pending read arms a new one.

use std::time::Duration;
use vstd::prelude::*;
use vstd::string::StringExecFns;

use crate::io::copy::Progress;
use crate::io::StreamTrait;

verus! {

/// Failure that the timer itself raises.
#[derive(Debug, Clone, Copy, PartialEq, Eq, Structural)]
pub enum TimerError {
    /// A read stayed pending for the whole timeout.
    TimedOut,
}

impl TimerError {
    pub open spec fn spec_message(self) -> Seq<char> {
        "timedout"@
    }

    /// The text shown for the error.
    pub fn message(&self) -> (text: String)
        ensures
            text@ == self.spec_message(),
    {
        String::from_str("timedout")
    }
}

/// What the driver does after it polled a read of the wrapped stream.
#[derive(Debug, Clone, Copy, PartialEq, Eq)]
pub enum TimerAction {
    /// Return what the wrapped stream gave, pending or ready.
    Forward,
    /// Start a sleep of this duration, poll it and report.
    Arm(Duration),
    /// Poll the sleep that is running and report.
    Watch,
}

/// Mathematical value of a [`StreamTimer`], but for the wrapped stream.
pub struct TimerView {
    pub timeout: Option<Duration>,
    /// Whether a sleep is running.
    pub armed: bool,
}

/// The decision after a read of the wrapped stream was polled and was
/// `ready`, with a result or an error, or not.
///
/// Without a timeout the wrapper is a pure pass-through. With one, a ready
/// read disarms the timer, and a pending read arms it unless it is armed.
pub open spec fn after_read(v: TimerView, ready: bool) -> (TimerView, TimerAction) {
    match v.timeout {
        None => (v, TimerAction::Forward),
        Some(timeout) => if ready {
            (TimerView { armed: false, ..v }, TimerAction::Forward)
        } else if v.armed {
            (v, TimerAction::Watch)
        } else {
            (TimerView { armed: true, ..v }, TimerAction::Arm(timeout))
        },
    }
}

/// The outcome of a pending read after the sleep was polled and had
/// `fired` or not: a sleep that fired disarms the timer and fails the
/// read.
pub open spec fn after_sleep(v: TimerView, fired: bool) -> (TimerView, Progress<TimerError>) {
    if fired {
        (TimerView { armed: false, ..v }, Progress::Ready(TimerError::TimedOut))
    } else {
        (v, Progress::Pending)
    }
}

/// Without a timeout every read is forwarded as the wrapped stream gave
/// it, and the timer does not change.
pub proof fn lemma_pass_through(v: TimerView, ready: bool)
    requires
        v.timeout is None,
    ensures
        after_read(v, ready) == (v, TimerAction::Forward),
{
}

/// With a timeout, a read that is pending is watched by a sleep, and the
/// read fails as timed out as soon as the sleep fired.
pub proof fn lemma_timeout_fires(v: TimerView, timeout: Duration)
    requires
        v.timeout == Some(timeout),
    ensures
        ({
            let (watched, action) = after_read(v, false);
            let (then, outcome) = after_sleep(watched, true);
            &&& action == if v.armed {
                TimerAction::Watch
            } else {
                TimerAction::Arm(timeout)
            }
            &&& watched.armed
            &&& outcome == Progress::Ready(TimerError::TimedOut)
            &&& !then.armed
        }),
{
}

/// The timer measures idleness, not age: with a timeout, the first pending
/// read after a completed one is given a new sleep of the whole timeout,
/// however long the stream has been open.
pub proof fn lemma_idle_not_deadline(v: TimerView, timeout: Duration)
    requires
        v.timeout == Some(timeout),
    ensures
        ({
            let (done, first) = after_read(v, true);
            let (waiting, second) = after_read(done, false);
            &&& first == TimerAction::Forward
            &&& second == TimerAction::Arm(timeout)
            &&& waiting.armed
        }),
{
}

/// A stream with an idle timeout on its reads.
pub struct StreamTimer<S: StreamTrait> {
    inner: S,
    timeout: Option<Duration>,
    armed: bool,
}

impl<S: StreamTrait> View for StreamTimer<S> {
    type V = TimerView;

    closed spec fn view(&self) -> TimerView {
        TimerView { timeout: self.timeout, armed: self.armed }
    }
}

impl<S: StreamTrait> StreamTimer<S> {
    /// The wrapped stream.
    pub closed spec fn spec_inner(&self) -> S {
        self.inner
    }

    /// Wraps `inner`. `None` makes the wrapper a pure pass-through.
    pub fn new(inner: S, timeout: Option<Duration>) -> (t: Self)
        ensures
            t.spec_inner() == inner,
            t@ == (TimerView { timeout, armed: false }),
    {
        StreamTimer { inner, timeout, armed: false }
    }

    /// Unwraps the stream.
    pub fn inner(self) -> (s: S)
        ensures
            s == self.spec_inner(),
    {
        self.inner
    }

    pub fn timeout(&self) -> (t: Option<Duration>)
        ensures
            t == self@.timeout,
    {
        self.timeout
    }

    /// Changes the timeout. A sleep that is running goes on.
    pub fn set_timeout(&mut self, timeout: Option<Duration>)
        ensures
            final(self)@ == (TimerView { timeout, ..old(self)@ }),
            final(self).spec_inner() == old(self).spec_inner(),
    {
        self.timeout = timeout;
    }

    /// The wrapped stream, to poll it.
    pub fn get_mut(&mut self) -> (s: &mut S)
        ensures
            *s == old(self).spec_inner(),
            final(self).spec_inner() == *final(s),
            final(self)@ == old(self)@,
    {
        &mut self.inner
    }

    /// Whether a sleep is running.
    pub fn is_armed(&self) -> (b: bool)
        ensures
            b == self@.armed,
    {
        self.armed
    }

    /// Reports that a read of the wrapped stream was polled and was
    /// `ready` or not, and says what to do with it.
    pub fn read_polled(&mut self, ready: bool) -> (action: TimerAction)
        ensures
            (final(self)@, action) == after_read(old(self)@, ready),
            final(self).spec_inner() == old(self).spec_inner(),
    {
        match self.timeout {
            None => TimerAction::Forward,
            Some(timeout) => {
                if ready {
                    self.armed = false;
                    TimerAction::Forward
                } else if self.armed {
                    TimerAction::Watch
                } else {
                    self.armed = true;
                    TimerAction::Arm(timeout)
                }
            },
        }
    }

    /// Reports that the sleep was polled and had `fired` or not, and says
    /// how the pending read ends.
    pub fn sleep_polled(&mut self, fired: bool) -> (outcome: Progress<TimerError>)
        ensures
            (final(self)@, outcome) == after_sleep(old(self)@, fired),
            final(self).spec_inner() == old(self).spec_inner(),
    {
        if fired {
            self.armed = false;
            Progress::Ready(TimerError::TimedOut)
        } else {
            Progress::Pending
        }
    }
}

} // verus!
