//! Clock-agnostic retry backoff policies.
//!
//! A [`Backoff`] computes how long to wait before each retry. It never sleeps
//! or reads a clock: [`Backoff::delay`] maps a zero-based attempt number to a
//! delay, or `None` once the retry limit is reached.

use crate::time::{saturating_product, Duration, MAX_NANOS};
use vstd::prelude::*;

verus! {

/// How the delay grows from one attempt to the next, as a mathematical value.
pub enum GrowthModel {
    /// The same delay every attempt.
    Constant,
    /// `base + step * attempt`, with `step` in nanoseconds.
    Linear { step: nat },
    /// `base * factor^attempt`.
    Exponential { factor: u32 },
}

/// The mathematical content of a [`Backoff`]: all spans in nanoseconds.
pub struct BackoffModel {
    pub base: nat,
    pub growth: GrowthModel,
    pub max_delay: nat,
    pub max_retries: Option<u32>,
}

/// `value` capped at `cap`.
pub open spec fn clamp(value: nat, cap: nat) -> nat {
    if value > cap {
        cap
    } else {
        value
    }
}

/// `a + b`, or `MAX_NANOS` when the sum does not fit.
pub open spec fn saturating_sum(a: nat, b: nat) -> nat {
    if a + b <= MAX_NANOS {
        a + b
    } else {
        MAX_NANOS as nat
    }
}

/// `base` multiplied by `factor` `n` times, saturating at `MAX_NANOS` after
/// every step.
pub open spec fn saturating_power(base: nat, factor: nat, n: nat) -> nat
    decreases n,
{
    if n == 0 {
        base
    } else {
        saturating_product(saturating_power(base, factor, (n - 1) as nat), factor)
    }
}

/// The delay before clamping to the policy's maximum.
pub open spec fn raw_delay(m: BackoffModel, attempt: nat) -> nat {
    match m.growth {
        GrowthModel::Constant => m.base,
        GrowthModel::Linear { step } => saturating_sum(m.base, saturating_product(step, attempt)),
        GrowthModel::Exponential { factor } => if factor <= 1 {
            m.base
        } else {
            saturating_power(m.base, factor as nat, attempt)
        },
    }
}

/// The delay before retry `attempt`, or `None` once the retry limit is reached.
pub open spec fn delay_of(m: BackoffModel, attempt: nat) -> Option<nat> {
    match m.max_retries {
        Some(limit) if attempt >= limit => None,
        _ => Some(clamp(raw_delay(m, attempt), m.max_delay)),
    }
}

proof fn lemma_power_bounded(base: nat, factor: nat, n: nat)
    requires
        base <= MAX_NANOS,
    ensures
        saturating_power(base, factor, n) <= MAX_NANOS,
    decreases n,
{
    if n > 0 {
        lemma_power_bounded(base, factor, (n - 1) as nat);
    }
}

proof fn lemma_power_step(base: nat, factor: nat, n: nat)
    requires
        base <= MAX_NANOS,
        factor >= 1,
    ensures
        saturating_power(base, factor, n) <= saturating_power(base, factor, n + 1),
{
    let x = saturating_power(base, factor, n);
    lemma_power_bounded(base, factor, n);
    assert(x * factor >= x) by (nonlinear_arith)
        requires
            factor >= 1,
    ;
}

/// With a factor of at least one, the saturating power never shrinks.
proof fn lemma_power_monotone(base: nat, factor: nat, i: nat, j: nat)
    requires
        base <= MAX_NANOS,
        factor >= 1,
        i <= j,
    ensures
        saturating_power(base, factor, i) <= saturating_power(base, factor, j),
    decreases j - i,
{
    if i < j {
        lemma_power_monotone(base, factor, i, (j - 1) as nat);
        lemma_power_step(base, factor, (j - 1) as nat);
    }
}

/// Once one step leaves the value unchanged, every later step does too.
proof fn lemma_power_fixed(base: nat, factor: nat, i: nat, j: nat)
    requires
        i <= j,
        saturating_power(base, factor, i + 1) == saturating_power(base, factor, i),
    ensures
        saturating_power(base, factor, j) == saturating_power(base, factor, i),
    decreases j - i,
{
    if i < j {
        lemma_power_fixed(base, factor, i, (j - 1) as nat);
    }
}

/// Every delay a policy gives is at most its maximum delay.
pub proof fn law_delay_capped(m: BackoffModel, attempt: nat)
    ensures
        delay_of(m, attempt) matches Some(d) ==> d <= m.max_delay,
{
}

/// A policy gives no delay exactly for the attempts at or past its retry
/// limit.
pub proof fn law_retry_limit(m: BackoffModel, attempt: nat)
    ensures
        delay_of(m, attempt) is None <==> (m.max_retries matches Some(limit) && attempt >= limit),
{
}

/// Delays never shrink from one attempt to a later one.
pub proof fn law_delay_monotone(m: BackoffModel, i: nat, j: nat)
    requires
        m.base <= MAX_NANOS,
        i <= j,
        delay_of(m, i) is Some,
        delay_of(m, j) is Some,
    ensures
        delay_of(m, i)->0 <= delay_of(m, j)->0,
{
    match m.growth {
        GrowthModel::Constant => {},
        GrowthModel::Linear { step } => {
            assert(step * i <= step * j) by (nonlinear_arith)
                requires
                    i <= j,
            ;
        },
        GrowthModel::Exponential { factor } => {
            if factor > 1 {
                lemma_power_monotone(m.base, factor as nat, i, j);
            }
        },
    }
}

/// Growth strategy for the delay between retries.
#[derive(Debug, Clone, Copy, PartialEq, Eq, Hash, Structural)]
enum Kind {
    Constant,
    Linear { step: Duration },
    Exponential { factor: u32 },
}

/// A retry backoff policy: a base delay, a growth strategy, an optional cap on
/// every delay and an optional retry limit.
#[derive(Debug, Clone, Copy, PartialEq, Eq, Hash, Structural)]
pub struct Backoff {
    base: Duration,
    kind: Kind,
    max_delay: Duration,
    max_retries: Option<u32>,
}

impl View for Backoff {
    type V = BackoffModel;

    closed spec fn view(&self) -> BackoffModel {
        BackoffModel {
            base: self.base@,
            growth: match self.kind {
                Kind::Constant => GrowthModel::Constant,
                Kind::Linear { step } => GrowthModel::Linear { step: step@ },
                Kind::Exponential { factor } => GrowthModel::Exponential { factor },
            },
            max_delay: self.max_delay@,
            max_retries: self.max_retries,
        }
    }
}

impl Backoff {
    /// A constant backoff that always waits `base`.
    pub fn constant(base: Duration) -> (b: Backoff)
        ensures
            b@.base == base@,
            b@.growth == GrowthModel::Constant,
            b@.max_delay == MAX_NANOS,
            b@.max_retries == None::<u32>,
    {
        Backoff { base, kind: Kind::Constant, max_delay: Duration::max_value(), max_retries: None }
    }

    /// A linear backoff: attempt `n` waits `base + step * n`.
    pub fn linear(base: Duration, step: Duration) -> (b: Backoff)
        ensures
            b@.base == base@,
            b@.growth == (GrowthModel::Linear { step: step@ }),
            b@.max_delay == MAX_NANOS,
            b@.max_retries == None::<u32>,
    {
        Backoff {
            base,
            kind: Kind::Linear { step },
            max_delay: Duration::max_value(),
            max_retries: None,
        }
    }

    /// An exponential backoff: attempt `n` waits `base * factor^n`. A factor
    /// below `2` behaves like [`Backoff::constant`].
    pub fn exponential(base: Duration, factor: u32) -> (b: Backoff)
        ensures
            b@.base == base@,
            b@.growth == (GrowthModel::Exponential { factor }),
            b@.max_delay == MAX_NANOS,
            b@.max_retries == None::<u32>,
    {
        Backoff {
            base,
            kind: Kind::Exponential { factor },
            max_delay: Duration::max_value(),
            max_retries: None,
        }
    }

    /// Caps every computed delay at `max_delay`.
    pub fn with_max_delay(self, max_delay: Duration) -> (b: Backoff)
        ensures
            b@ == (BackoffModel { max_delay: max_delay@, ..self@ }),
    {
        Backoff { max_delay, ..self }
    }

    /// Limits the policy to at most `max_retries` retries.
    pub fn with_max_retries(self, max_retries: u32) -> (b: Backoff)
        ensures
            b@ == (BackoffModel { max_retries: Some(max_retries), ..self@ }),
    {
        Backoff { max_retries: Some(max_retries), ..self }
    }

    /// Returns the base delay.
    pub fn base(&self) -> (d: Duration)
        ensures
            d@ == self@.base,
    {
        self.base
    }

    /// Returns the maximum delay cap.
    pub fn max_delay(&self) -> (d: Duration)
        ensures
            d@ == self@.max_delay,
    {
        self.max_delay
    }

    /// Returns the retry limit, if any.
    pub fn max_retries(&self) -> (r: Option<u32>)
        ensures
            r == self@.max_retries,
    {
        self.max_retries
    }

    /// Returns the delay to wait before retry `attempt` (zero-based), or `None`
    /// once the retry limit is reached. The result never exceeds
    /// [`max_delay`](Self::max_delay); all arithmetic saturates and the loop
    /// stops as soon as the delay can no longer change.
    pub fn delay(&self, attempt: u32) -> (r: Option<Duration>)
        ensures
            match (r, delay_of(self@, attempt as nat)) {
                (Some(d), Some(n)) => d@ == n,
                (None, None) => true,
                _ => false,
            },
    {
        if let Some(max) = self.max_retries {
            if attempt >= max {
                return None;
            }
        }
        let raw = match self.kind {
            Kind::Constant => self.base,
            Kind::Linear { step } => self.base.saturating_add(step.saturating_mul(attempt)),
            Kind::Exponential { factor } => {
                if factor <= 1 {
                    self.base
                } else {
                    self.exponential_delay(factor, attempt)
                }
            },
        };
        if raw.as_nanos() > self.max_delay.as_nanos() {
            Some(self.max_delay)
        } else {
            Some(raw)
        }
    }

    /// `base * factor^attempt`, computed step by step and cut short once it
    /// reaches the cap or stops growing.
    fn exponential_delay(&self, factor: u32, attempt: u32) -> (d: Duration)
        requires
            factor >= 2,
        ensures
            clamp(d@, self.max_delay@) == clamp(
                saturating_power(self.base@, factor as nat, attempt as nat),
                self.max_delay@,
            ),
    {
        let ghost base = self.base@;
        let ghost cap = self.max_delay@;
        let _ = self.base.as_nanos();
        let mut delay = self.base;
        let mut i: u32 = 0;
        while i < attempt
            invariant_except_break
                i <= attempt,
                delay@ == saturating_power(base, factor as nat, i as nat),
            invariant
                base == self.base@,
                cap == self.max_delay@,
                base <= MAX_NANOS,
                factor >= 2,
            ensures
                clamp(delay@, cap) == clamp(saturating_power(base, factor as nat, attempt as nat), cap),
            decreases attempt - i,
        {
            if delay.as_nanos() >= self.max_delay.as_nanos() {
                proof {
                    lemma_power_monotone(base, factor as nat, i as nat, attempt as nat);
                }
                delay = self.max_delay;
                break;
            }
            let next = delay.saturating_mul(factor);
            if next.as_nanos() == delay.as_nanos() {
                proof {
                    lemma_power_fixed(base, factor as nat, i as nat, attempt as nat);
                }
                break;
            }
            delay = next;
            i = i + 1;
        }
        delay
    }

    /// Returns a cursor over the delays for attempts `0, 1, 2, ...`.
    pub fn delays(&self) -> (d: Delays)
        ensures
            d.policy() == self@,
            d.attempt() == 0,
    {
        Delays { backoff: *self, attempt: 0 }
    }
}

/// A cursor over the successive delays of a [`Backoff`] policy, created by
/// [`Backoff::delays`].
#[derive(Debug, Clone, Copy)]
pub struct Delays {
    backoff: Backoff,
    attempt: u32,
}

impl Delays {
    /// The policy whose delays are produced.
    pub closed spec fn policy(&self) -> BackoffModel {
        self.backoff@
    }

    /// The attempt number whose delay comes next.
    pub closed spec fn attempt(&self) -> nat {
        self.attempt as nat
    }

    /// Returns the delay for the current attempt and moves to the next one, or
    /// `None` once the retry limit is reached.
    pub fn next(&mut self) -> (r: Option<Duration>)
        ensures
            final(self).policy() == old(self).policy(),
            final(self).attempt() == next_attempt(old(self).policy(), old(self).attempt()),
            match (r, delay_of(old(self).policy(), old(self).attempt())) {
                (Some(d), Some(n)) => d@ == n && final(self).attempt() == if old(self).attempt()
                    < u32::MAX {
                    old(self).attempt() + 1
                } else {
                    old(self).attempt()
                },
                (None, None) => final(self).attempt() == old(self).attempt(),
                _ => false,
            },
    {
        let delay = self.backoff.delay(self.attempt);
        match delay {
            Some(d) => {
                self.attempt = self.attempt.saturating_add(1);
                Some(d)
            },
            None => None,
        }
    }
}

/// The attempt a [`Delays`] cursor moves to after one `next` from attempt `a`:
/// one further after a delay (saturating at `u32::MAX`), unchanged at the end.
pub open spec fn next_attempt(m: BackoffModel, a: nat) -> nat {
    match delay_of(m, a) {
        Some(_) => if a < u32::MAX {
            a + 1
        } else {
            a
        },
        None => a,
    }
}

/// The attempt of a fresh cursor after `k` calls of `next`.
pub open spec fn attempt_after(m: BackoffModel, k: nat) -> nat
    decreases k,
{
    if k == 0 {
        0
    } else {
        next_attempt(m, attempt_after(m, (k - 1) as nat))
    }
}

/// The `k`-th item (zero-based) a fresh cursor yields: the delay of its
/// attempt at that point.
pub open spec fn delays_item(m: BackoffModel, k: nat) -> Option<nat> {
    delay_of(m, attempt_after(m, k))
}

proof fn lemma_attempt_after(m: BackoffModel, k: nat)
    requires
        k <= u32::MAX,
    ensures
        attempt_after(m, k) == match m.max_retries {
            Some(l) => if k < l {
                k
            } else {
                l as nat
            },
            None => k,
        },
    decreases k,
{
    if k > 0 {
        lemma_attempt_after(m, (k - 1) as nat);
    }
}

/// A fresh cursor yields the delays of attempts `0, 1, 2, ...` in turn: its
/// `k`-th item is `delay(k)`. With a retry limit `l` it yields exactly `l`
/// delays and then only `None`; without one it never ends.
pub proof fn law_delays_in_turn(m: BackoffModel, k: nat)
    requires
        k <= u32::MAX,
    ensures
        delays_item(m, k) == delay_of(m, k),
        (delays_item(m, k) is None) <==> (m.max_retries matches Some(l) && k >= l),
{
    lemma_attempt_after(m, k);
}

} // verus!
