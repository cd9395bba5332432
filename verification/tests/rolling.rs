use reliakit::circuit::State;
use reliakit::rolling::RollingBreaker;

#[test]
fn trips_on_non_consecutive_failures_in_window() {
    let mut b = RollingBreaker::<5>::new(3, 100);
    b.on_failure(0);
    b.on_success();
    b.on_failure(0);
    b.on_success();
    assert_eq!(b.state(), State::Closed);
    assert_eq!(b.failures_in_window(), 2);
    b.on_failure(0);
    assert_eq!(b.state(), State::Open);
}

#[test]
fn old_failures_age_out_of_window() {
    let mut b = RollingBreaker::<3>::new(2, 100);
    b.on_failure(0);
    b.on_success();
    b.on_success();
    b.on_success();
    assert_eq!(b.failures_in_window(), 0);
    assert_eq!(b.state(), State::Closed);
    b.on_failure(0);
    assert_eq!(b.state(), State::Closed);
    b.on_failure(0);
    assert_eq!(b.state(), State::Open);
}

#[test]
fn half_open_recovers_then_closes() {
    let mut b = RollingBreaker::<4>::new(2, 100).with_success_threshold(2);
    b.on_failure(0);
    b.on_failure(0);
    assert_eq!(b.state(), State::Open);
    assert!(!b.allow(50));
    assert!(b.allow(100));
    assert_eq!(b.state(), State::HalfOpen);
    b.on_success();
    assert_eq!(b.state(), State::HalfOpen);
    b.on_success();
    assert_eq!(b.state(), State::Closed);
    assert_eq!(b.failures_in_window(), 0);
}

#[test]
fn half_open_failure_reopens() {
    let mut b = RollingBreaker::<4>::new(2, 100);
    b.on_failure(0);
    b.on_failure(0);
    assert!(b.allow(100));
    b.on_failure(200);
    assert_eq!(b.state(), State::Open);
    assert!(!b.allow(250));
}

#[test]
fn backwards_clock_keeps_open_without_panic() {
    let mut b = RollingBreaker::<2>::new(1, 100);
    b.on_failure(1_000);
    assert_eq!(b.state(), State::Open);
    assert!(!b.allow(0));
    assert_eq!(b.state(), State::Open);
}

#[test]
fn zero_window_never_trips_on_rate() {
    let mut b = RollingBreaker::<0>::new(1, 100);
    for _ in 0..1_000 {
        b.on_failure(0);
    }
    assert_eq!(b.state(), State::Closed);
    assert_eq!(b.failures_in_window(), 0);
    b.trip(0);
    assert_eq!(b.state(), State::Open);
}

#[test]
fn accessors_and_threshold_flooring() {
    let b = RollingBreaker::<8>::new(0, 250).with_success_threshold(0);
    assert_eq!(b.window_size(), 8);
    assert_eq!(b.failure_threshold(), 1);
    assert_eq!(b.success_threshold(), 1);
    assert_eq!(b.cooldown(), 250);
    assert_eq!(b.state(), State::Closed);
}

#[test]
fn reset_clears_everything() {
    let mut b = RollingBreaker::<3>::new(2, 100);
    b.on_failure(0);
    b.on_failure(0);
    assert_eq!(b.state(), State::Open);
    b.reset();
    assert_eq!(b.state(), State::Closed);
    assert_eq!(b.failures_in_window(), 0);
}

#[test]
fn ring_wraps_many_times_and_keeps_count() {
    let mut b = RollingBreaker::<3>::new(3, 100);
    for _ in 0..10 {
        b.on_failure(0);
        b.on_success();
        b.on_success();
    }
    assert_eq!(b.failures_in_window(), 1);
    assert_eq!(b.state(), State::Closed);
}

#[test]
fn failures_in_window_never_exceed_window_size() {
    let mut b = RollingBreaker::<3>::new(10, 100);
    for i in 0..50u64 {
        b.on_failure(i);
        assert!(b.failures_in_window() as usize <= b.window_size());
    }
    assert_eq!(b.failures_in_window(), 3);
    assert_eq!(b.state(), State::Closed);
}

#[test]
fn window_counts_only_the_most_recent_outcomes() {
    let mut b = RollingBreaker::<4>::new(3, 100);
    // history: F S F S S S -> last four: F S S S
    b.on_failure(0);
    b.on_success();
    b.on_failure(0);
    b.on_success();
    b.on_success();
    b.on_success();
    assert_eq!(b.failures_in_window(), 1);
    assert_eq!(b.state(), State::Closed);
    // last four with two more failures: S S F F -> 2, still closed
    b.on_failure(0);
    b.on_failure(0);
    assert_eq!(b.failures_in_window(), 2);
    assert_eq!(b.state(), State::Closed);
    // S F F F -> 3 reaches the threshold and opens, emptying the window
    b.on_failure(0);
    assert_eq!(b.state(), State::Open);
    assert_eq!(b.failures_in_window(), 0);
}

#[test]
fn large_window_is_accepted() {
    let mut b = RollingBreaker::<70000>::new(2, 10);
    b.on_failure(0);
    assert_eq!(b.failures_in_window(), 1);
    b.on_failure(0);
    assert_eq!(b.state(), State::Open);
}
