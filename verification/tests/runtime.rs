use allelua::sync::{LuaWaitGroup, QueueError};
use allelua::term::{prompt_or_default, LuaEventResize, LuaPasteEvent, ReadlineErrorKind};
use allelua::time::{remove_trailing_zeros, LuaDuration};

fn dur(secs: u64, nanos: u32) -> LuaDuration {
    LuaDuration::from_parts(secs, nanos)
}

#[test]
fn remove_trailing_zeros_of_zero_is_zero() {
    assert_eq!(remove_trailing_zeros(0), (0, 0));
}

#[test]
fn remove_trailing_zeros_counts_zeros() {
    assert_eq!(remove_trailing_zeros(120_000), (12, 4));
    assert_eq!(remove_trailing_zeros(7), (7, 0));
    assert_eq!(remove_trailing_zeros(1_000_000_000_000_000_000_000_000_000_000_000_000), (1, 36));
}

#[test]
fn duration_zero_is_0s() {
    assert_eq!(dur(0, 0).to_string(), "0s");
}

#[test]
fn duration_below_a_microsecond_in_nanoseconds() {
    assert_eq!(dur(0, 999).to_string(), "999ns");
}

#[test]
fn duration_in_microseconds() {
    assert_eq!(dur(0, 1_500).to_string(), "1.500µs");
    assert_eq!(dur(0, 2_000).to_string(), "2µs");
    assert_eq!(dur(0, 2_007).to_string(), "2.007µs");
}

#[test]
fn duration_in_milliseconds() {
    assert_eq!(dur(0, 1_200_000).to_string(), "1.2ms");
    assert_eq!(dur(0, 3_000_000).to_string(), "3ms");
    assert_eq!(dur(0, 3_000_050).to_string(), "3.00005ms");
}

#[test]
fn duration_in_seconds_minutes_hours() {
    assert_eq!(dur(1, 500_000_000).to_string(), "1.5s");
    assert_eq!(dur(90, 0).to_string(), "1m30s");
    assert_eq!(dur(3600, 0).to_string(), "1h");
    assert_eq!(dur(3660, 0).to_string(), "1h1m");
    assert_eq!(dur(3601, 50_000_000).to_string(), "1h1.05s");
    assert_eq!(dur(3661, 0).to_string(), "1h1m1s");
    assert_eq!(dur(120, 0).to_string(), "2m");
    assert_eq!(dur(59, 0).to_string(), "59s");
    assert_eq!(dur(61, 7_000_000).to_string(), "1m1.007s");
    assert_eq!(dur(3600, 1_000_000).to_string(), "1h0.001s");
}

#[test]
fn duration_arithmetic() {
    let a = dur(1, 600_000_000);
    let b = dur(0, 700_000_000);
    let sum = a.add(&b);
    assert_eq!((sum.as_secs(), sum.subsec_nanos()), (2, 300_000_000));
    let diff = a.sub(&b);
    assert_eq!((diff.as_secs(), diff.subsec_nanos()), (0, 900_000_000));
    let prod = a.mul(3);
    assert_eq!((prod.as_secs(), prod.subsec_nanos()), (4, 800_000_000));
    let quot = dur(1, 2).div(3);
    assert_eq!((quot.as_secs(), quot.subsec_nanos()), (0, 333_333_334));
    assert!(b.is_less(&a));
    assert!(a.is_less_or_equal(&a));
    assert!(a.is_equal(&dur(1, 600_000_000)));
    assert!(a.mul_integer(-1).is_none());
    assert!(a.mul_integer(5_000_000_000).is_none());
    let twice = a.mul_integer(2).unwrap();
    assert_eq!((twice.as_secs(), twice.subsec_nanos()), (3, 200_000_000));
    assert_eq!(LuaDuration::minute().to_string(), "1m");
    assert_eq!(LuaDuration::millisecond().to_string(), "1ms");
}

#[test]
fn wait_group_wakes_waiters_when_done() {
    let mut wg = LuaWaitGroup::new();
    assert!(wg.poll_wait(1));
    wg.add(2);
    assert_eq!(wg.count(), 2);
    assert!(!wg.poll_wait(1));
    assert!(!wg.poll_wait(2));
    assert_eq!(wg.done(), Vec::<u64>::new());
    assert_eq!(wg.done(), vec![1, 2]);
    assert_eq!(wg.count(), 0);
    assert!(wg.poll_wait(3));
}

#[test]
fn queue_error_message() {
    assert_eq!(QueueError::Closed.message(), "queue is closed");
}

#[test]
fn events_hold_their_values() {
    let paste: LuaPasteEvent = String::from("hello").into();
    assert_eq!(paste.content(), "hello");
    let resize: LuaEventResize = (80, 24).into();
    assert_eq!((resize.columns(), resize.rows()), (80, 24));
    assert_eq!(LuaPasteEvent::lua_type(), "term.PasteEvent");
}

#[test]
fn readline_error_messages() {
    assert_eq!(ReadlineErrorKind::Eof.kind(), "eof");
    assert_eq!(ReadlineErrorKind::WindowResized.kind(), "window_resized");
    assert_eq!(ReadlineErrorKind::Interrupted.to_string(), "term.ReadLineError(kind=interrupted)");
    assert_eq!(ReadlineErrorKind::lua_type(), "term.ReadlineError");
}

#[test]
fn readline_prompt_defaults() {
    assert_eq!(prompt_or_default(None), "> ");
    assert_eq!(prompt_or_default(Some("$ ".to_string())), "$ ");
}
