use reliakit::backoff::Backoff;
use reliakit::time::Duration;

fn ms(n: u64) -> Duration {
    Duration::from_millis(n)
}

#[test]
fn constant_is_flat() {
    let b = Backoff::constant(ms(50));
    assert_eq!(b.delay(0), Some(ms(50)));
    assert_eq!(b.delay(1000), Some(ms(50)));
}

#[test]
fn linear_grows_by_step() {
    let b = Backoff::linear(ms(100), ms(25));
    assert_eq!(b.delay(0), Some(ms(100)));
    assert_eq!(b.delay(1), Some(ms(125)));
    assert_eq!(b.delay(4), Some(ms(200)));
}

#[test]
fn exponential_doubles() {
    let b = Backoff::exponential(ms(10), 2);
    assert_eq!(b.delay(0), Some(ms(10)));
    assert_eq!(b.delay(1), Some(ms(20)));
    assert_eq!(b.delay(2), Some(ms(40)));
    assert_eq!(b.delay(3), Some(ms(80)));
}

#[test]
fn exponential_factor_three() {
    let b = Backoff::exponential(ms(1), 3);
    assert_eq!(b.delay(0), Some(ms(1)));
    assert_eq!(b.delay(1), Some(ms(3)));
    assert_eq!(b.delay(2), Some(ms(9)));
}

#[test]
fn max_delay_caps() {
    let b = Backoff::exponential(ms(100), 2).with_max_delay(ms(500));
    assert_eq!(b.delay(0), Some(ms(100)));
    assert_eq!(b.delay(2), Some(ms(400)));
    assert_eq!(b.delay(3), Some(ms(500)));
    assert_eq!(b.delay(50), Some(ms(500)));
}

#[test]
fn max_retries_stops() {
    let b = Backoff::constant(ms(10)).with_max_retries(3);
    assert_eq!(b.delay(0), Some(ms(10)));
    assert_eq!(b.delay(2), Some(ms(10)));
    assert_eq!(b.delay(3), None);
    assert_eq!(b.delay(100), None);
}

#[test]
fn exponential_factor_below_two_is_constant() {
    let b = Backoff::exponential(ms(7), 1);
    assert_eq!(b.delay(0), Some(ms(7)));
    assert_eq!(b.delay(9), Some(ms(7)));
}

#[test]
fn huge_attempt_saturates_without_hanging() {
    let b = Backoff::exponential(Duration::from_secs(1), 2);
    assert_eq!(b.delay(u32::MAX), Some(Duration::max_value()));
}

#[test]
fn zero_base_exponential_does_not_hang() {
    let b = Backoff::exponential(Duration::zero(), 2);
    assert_eq!(b.delay(u32::MAX), Some(Duration::zero()));
    assert_eq!(b.delay(0), Some(Duration::zero()));

    let capped = Backoff::exponential(Duration::zero(), 4).with_max_delay(ms(500));
    assert_eq!(capped.delay(u32::MAX), Some(Duration::zero()));
}

#[test]
fn linear_saturates() {
    let b = Backoff::linear(Duration::max_value(), Duration::from_secs(1));
    assert_eq!(b.delay(10), Some(Duration::max_value()));
}

#[test]
fn delays_iterator_respects_limit() {
    let b = Backoff::exponential(ms(10), 2).with_max_retries(4);
    let mut delays = b.delays();
    let mut collected = Vec::new();
    while let Some(d) = delays.next() {
        collected.push(d);
    }
    assert_eq!(collected.as_slice(), &[ms(10), ms(20), ms(40), ms(80)]);
}

#[test]
fn getters() {
    let b = Backoff::exponential(ms(5), 2)
        .with_max_delay(ms(100))
        .with_max_retries(7);
    assert_eq!(b.base(), ms(5));
    assert_eq!(b.max_delay(), ms(100));
    assert_eq!(b.max_retries(), Some(7));
}

#[test]
fn linear_delay_with_limit_and_cap() {
    let b = Backoff::linear(ms(10), ms(10)).with_max_delay(ms(35)).with_max_retries(5);
    assert_eq!(b.delay(0), Some(ms(10)));
    assert_eq!(b.delay(2), Some(ms(30)));
    assert_eq!(b.delay(3), Some(ms(35)));
    assert_eq!(b.delay(5), None);
}

#[test]
fn delays_cursor_advances_even_without_limit() {
    let b = Backoff::exponential(ms(1), 2);
    let mut d = b.delays();
    assert_eq!(d.next(), Some(ms(1)));
    assert_eq!(d.next(), Some(ms(2)));
    assert_eq!(d.next(), Some(ms(4)));
}

#[test]
fn duration_saturating_ops() {
    assert_eq!(Duration::max_value().saturating_add(ms(1)), Duration::max_value());
    assert_eq!(ms(3).saturating_mul(4), ms(12));
    assert_eq!(Duration::new(1, 500_000_000).as_millis(), 1500);
    assert_eq!(Duration::from_secs(2).as_secs(), 2);
}

#[test]
fn delays_never_shrink_and_stay_capped() {
    let policies = [
        Backoff::constant(ms(5)),
        Backoff::linear(ms(5), ms(7)).with_max_delay(ms(40)),
        Backoff::exponential(ms(3), 3).with_max_delay(ms(1000)),
    ];
    for policy in policies {
        let mut previous = 0u128;
        for attempt in 0..20u32 {
            let d = policy.delay(attempt).unwrap().as_nanos();
            assert!(d >= previous);
            assert!(d <= policy.max_delay().as_nanos());
            previous = d;
        }
    }
    let limited = Backoff::constant(ms(1)).with_max_retries(3);
    assert!(limited.delay(2).is_some());
    assert!(limited.delay(3).is_none());
    assert!(limited.delay(u32::MAX).is_none());
}

#[test]
fn delays_are_delay_of_each_attempt_in_turn() {
    let b = Backoff::linear(ms(5), ms(3)).with_max_retries(6);
    let mut d = b.delays();
    for k in 0..6u32 {
        assert_eq!(d.next(), b.delay(k));
    }
    assert_eq!(d.next(), None);
    assert_eq!(d.next(), None);
}
