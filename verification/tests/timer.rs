use std::time::Duration;

use kapibara::io::copy::Progress;
use kapibara::io::timer::{TimerAction, TimerError};
use kapibara::io::{StreamTimer, ToStreamTimer};

const T: Duration = Duration::from_millis(50);

#[test]
fn wrapper_holds_stream_and_timeout() {
    let mut timer = StreamTimer::new(vec![1u8, 2, 3], Some(T));
    assert_eq!(timer.timeout(), Some(T));
    assert!(!timer.is_armed());
    timer.get_mut().push(4);
    assert_eq!(timer.inner(), vec![1u8, 2, 3, 4]);
}

#[test]
fn to_timer_wraps_any_stream() {
    let timer = "stream".to_timer(Some(T));
    assert_eq!(timer.timeout(), Some(T));
    assert!(!timer.is_armed());
    assert_eq!(timer.inner(), "stream");

    let timer = 7u8.to_timer(None);
    assert_eq!(timer.timeout(), None);
    assert_eq!(timer.inner(), 7);
}

#[test]
fn set_timeout_replaces_the_timeout() {
    let mut timer = StreamTimer::new((), None);
    timer.set_timeout(Some(T));
    assert_eq!(timer.timeout(), Some(T));
    timer.set_timeout(Some(Duration::from_secs(1)));
    assert_eq!(timer.timeout(), Some(Duration::from_secs(1)));
    timer.set_timeout(None);
    assert_eq!(timer.timeout(), None);
}

#[test]
fn without_timeout_every_read_is_forwarded() {
    let mut timer = StreamTimer::new((), None);
    for ready in [false, true, false, false, true] {
        assert_eq!(timer.read_polled(ready), TimerAction::Forward);
        assert!(!timer.is_armed());
    }
}

#[test]
fn ready_read_is_forwarded() {
    let mut timer = StreamTimer::new((), Some(T));
    assert_eq!(timer.read_polled(true), TimerAction::Forward);
    assert!(!timer.is_armed());
}

#[test]
fn pending_read_arms_the_timer_once() {
    let mut timer = StreamTimer::new((), Some(T));
    assert_eq!(timer.read_polled(false), TimerAction::Arm(T));
    assert!(timer.is_armed());
    assert_eq!(timer.sleep_polled(false), Progress::Pending);
    assert!(timer.is_armed());

    assert_eq!(timer.read_polled(false), TimerAction::Watch);
    assert_eq!(timer.sleep_polled(false), Progress::Pending);
    assert_eq!(timer.read_polled(false), TimerAction::Watch);
    assert!(timer.is_armed());
}

#[test]
fn fired_sleep_times_the_read_out() {
    let mut timer = StreamTimer::new((), Some(T));
    assert_eq!(timer.read_polled(false), TimerAction::Arm(T));
    assert_eq!(timer.sleep_polled(false), Progress::Pending);
    assert_eq!(timer.read_polled(false), TimerAction::Watch);
    assert_eq!(timer.sleep_polled(true), Progress::Ready(TimerError::TimedOut));
    assert!(!timer.is_armed());
    assert_eq!(TimerError::TimedOut.message(), "timedout");
}

#[test]
fn read_after_timeout_gets_a_new_sleep() {
    let mut timer = StreamTimer::new((), Some(T));
    timer.read_polled(false);
    timer.sleep_polled(true);
    assert_eq!(timer.read_polled(false), TimerAction::Arm(T));
}

#[test]
fn completed_read_disarms_the_timer() {
    let mut timer = StreamTimer::new((), Some(T));
    assert_eq!(timer.read_polled(false), TimerAction::Arm(T));
    assert_eq!(timer.sleep_polled(false), Progress::Pending);
    assert_eq!(timer.read_polled(true), TimerAction::Forward);
    assert!(!timer.is_armed());
    assert_eq!(timer.read_polled(false), TimerAction::Arm(T));
    assert!(timer.is_armed());
}

#[test]
fn steady_flow_never_watches_an_old_sleep() {
    let mut timer = StreamTimer::new((), Some(T));
    for _ in 0..10 {
        assert_eq!(timer.read_polled(false), TimerAction::Arm(T));
        assert_eq!(timer.sleep_polled(false), Progress::Pending);
        assert_eq!(timer.read_polled(true), TimerAction::Forward);
    }
}

#[test]
fn changed_timeout_applies_to_the_next_sleep() {
    let mut timer = StreamTimer::new((), Some(T));
    assert_eq!(timer.read_polled(false), TimerAction::Arm(T));
    timer.set_timeout(Some(Duration::from_secs(9)));
    assert_eq!(timer.read_polled(false), TimerAction::Watch);
    assert_eq!(timer.read_polled(true), TimerAction::Forward);
    assert_eq!(timer.read_polled(false), TimerAction::Arm(Duration::from_secs(9)));
}

#[test]
fn switched_off_timeout_forwards_and_keeps_the_sleep() {
    let mut timer = StreamTimer::new((), Some(T));
    assert_eq!(timer.read_polled(false), TimerAction::Arm(T));
    timer.set_timeout(None);
    assert_eq!(timer.read_polled(false), TimerAction::Forward);
    assert_eq!(timer.read_polled(true), TimerAction::Forward);
    assert!(timer.is_armed());
    timer.set_timeout(Some(T));
    assert_eq!(timer.read_polled(false), TimerAction::Watch);
}
