use reliakit::circuit::{CircuitBreaker, State};

#[test]
fn starts_closed_and_allows() {
    let mut cb = CircuitBreaker::new(3, 1000);
    assert_eq!(cb.state(), State::Closed);
    assert!(cb.allow(0));
}

#[test]
fn failures_below_threshold_stay_closed() {
    let mut cb = CircuitBreaker::new(3, 1000);
    cb.on_failure(0);
    cb.on_failure(0);
    assert_eq!(cb.state(), State::Closed);
    assert!(cb.allow(0));
}

#[test]
fn reaching_threshold_opens_and_rejects() {
    let mut cb = CircuitBreaker::new(3, 1000);
    for _ in 0..3 {
        cb.on_failure(0);
    }
    assert_eq!(cb.state(), State::Open);
    assert!(!cb.allow(500));
}

#[test]
fn success_resets_failure_run_in_closed() {
    let mut cb = CircuitBreaker::new(3, 1000);
    cb.on_failure(0);
    cb.on_failure(0);
    cb.on_success();
    cb.on_failure(0);
    cb.on_failure(0);
    assert_eq!(cb.state(), State::Closed);
    cb.on_failure(0);
    assert_eq!(cb.state(), State::Open);
}

#[test]
fn open_transitions_to_half_open_after_cooldown() {
    let mut cb = CircuitBreaker::new(1, 1000);
    cb.on_failure(0);
    assert_eq!(cb.state(), State::Open);
    assert!(!cb.allow(999));
    assert_eq!(cb.state(), State::Open);
    assert!(cb.allow(1000));
    assert_eq!(cb.state(), State::HalfOpen);
}

#[test]
fn half_open_success_closes() {
    let mut cb = CircuitBreaker::new(1, 1000);
    cb.on_failure(0);
    assert!(cb.allow(1000));
    assert_eq!(cb.state(), State::HalfOpen);
    cb.on_success();
    assert_eq!(cb.state(), State::Closed);
}

#[test]
fn half_open_failure_reopens_with_new_cooldown() {
    let mut cb = CircuitBreaker::new(1, 1000);
    cb.on_failure(0);
    assert!(cb.allow(1000));
    assert_eq!(cb.state(), State::HalfOpen);
    cb.on_failure(1000);
    assert_eq!(cb.state(), State::Open);
    assert!(!cb.allow(1999));
    assert!(cb.allow(2000));
    assert_eq!(cb.state(), State::HalfOpen);
}

#[test]
fn success_threshold_requires_multiple_successes() {
    let mut cb = CircuitBreaker::new(1, 1000).with_success_threshold(2);
    cb.on_failure(0);
    assert!(cb.allow(1000));
    cb.on_success();
    assert_eq!(cb.state(), State::HalfOpen);
    cb.on_success();
    assert_eq!(cb.state(), State::Closed);
}

#[test]
fn cooldown_zero_allows_immediately() {
    let mut cb = CircuitBreaker::new(1, 0);
    cb.on_failure(0);
    assert_eq!(cb.state(), State::Open);
    assert!(cb.allow(0));
    assert_eq!(cb.state(), State::HalfOpen);
}

#[test]
fn zero_failure_threshold_is_treated_as_one() {
    let mut cb = CircuitBreaker::new(0, 1000);
    assert_eq!(cb.failure_threshold(), 1);
    cb.on_failure(0);
    assert_eq!(cb.state(), State::Open);
}

#[test]
fn backwards_clock_does_not_panic_or_close_early() {
    let mut cb = CircuitBreaker::new(1, 1000);
    cb.on_failure(10_000);
    assert!(!cb.allow(5_000));
    assert_eq!(cb.state(), State::Open);
}

#[test]
fn trip_and_reset_are_explicit() {
    let mut cb = CircuitBreaker::new(5, 1000);
    cb.trip(0);
    assert_eq!(cb.state(), State::Open);
    cb.reset();
    assert_eq!(cb.state(), State::Closed);
    assert!(cb.allow(0));
}

#[test]
fn on_outcome_while_open_is_ignored() {
    let mut cb = CircuitBreaker::new(1, 1000);
    cb.on_failure(0);
    let before = cb;
    cb.on_success();
    cb.on_failure(0);
    assert_eq!(cb, before);
}

#[test]
fn accessors_report_configuration() {
    let cb = CircuitBreaker::new(4, 250).with_success_threshold(0);
    assert_eq!(cb.failure_threshold(), 4);
    assert_eq!(cb.success_threshold(), 1);
    assert_eq!(cb.cooldown(), 250);
}
