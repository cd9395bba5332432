//! Clock-agnostic circuit breaker.
//!
//! A [`CircuitBreaker`] stops calls to a failing dependency: once enough
//! consecutive failures pile up it opens and rejects calls at once, then after
//! a cooldown lets trial calls through (half-open) to test recovery. Time is a
//! plain `u64` passed in by the caller; the breaker never reads a clock.

use vstd::prelude::*;

verus! {

/// The state of a circuit breaker.
#[derive(Debug, Clone, Copy, PartialEq, Eq, Hash, Structural)]
pub enum State {
    /// Calls flow normally; failures are being counted.
    Closed,
    /// Calls are rejected immediately until the cooldown elapses.
    Open,
    /// A trial period: calls are allowed to test recovery.
    HalfOpen,
}

/// `a + 1`, stopping at `u32::MAX`.
pub open spec fn saturating_inc(a: nat) -> nat {
    if a < u32::MAX {
        a + 1
    } else {
        u32::MAX as nat
    }
}

/// `a - b`, stopping at zero.
pub open spec fn saturating_diff(a: nat, b: nat) -> nat {
    if a >= b {
        (a - b) as nat
    } else {
        0
    }
}

/// The full state of a [`CircuitBreaker`].
pub struct CircuitModel {
    pub failure_threshold: nat,
    pub success_threshold: nat,
    pub cooldown: nat,
    pub state: State,
    pub failures: nat,
    pub successes: nat,
    pub opened_at: nat,
}

impl CircuitModel {
    /// What every breaker keeps: positive thresholds within `u32`, and a closed
    /// breaker has seen fewer consecutive failures than its threshold.
    pub open spec fn valid(self) -> bool {
        &&& 1 <= self.failure_threshold <= u32::MAX
        &&& 1 <= self.success_threshold <= u32::MAX
        &&& self.failures <= u32::MAX
        &&& self.successes <= u32::MAX
        &&& self.cooldown <= u64::MAX
        &&& self.opened_at <= u64::MAX
        &&& (self.state == State::Closed ==> self.failures < self.failure_threshold)
    }

    /// The state after a forced trip at `now`.
    pub open spec fn tripped(self, now: nat) -> CircuitModel {
        CircuitModel { state: State::Open, opened_at: now, failures: 0, successes: 0, ..self }
    }

    /// The state after a forced reset.
    pub open spec fn cleared(self) -> CircuitModel {
        CircuitModel { state: State::Closed, failures: 0, successes: 0, opened_at: 0, ..self }
    }

    /// The state and answer of asking whether a call may proceed at `now`.
    pub open spec fn allowed(self, now: nat) -> (CircuitModel, bool) {
        if self.state == State::Open && saturating_diff(now, self.opened_at) >= self.cooldown {
            (CircuitModel { state: State::HalfOpen, successes: 0, ..self }, true)
        } else {
            (self, self.state != State::Open)
        }
    }

    /// The state after recording a success.
    pub open spec fn succeeded(self) -> CircuitModel {
        match self.state {
            State::Closed => CircuitModel { failures: 0, ..self },
            State::HalfOpen => {
                let successes = saturating_inc(self.successes);
                if successes >= self.success_threshold {
                    CircuitModel { state: State::Closed, failures: 0, successes: 0, ..self }
                } else {
                    CircuitModel { successes, ..self }
                }
            },
            State::Open => self,
        }
    }

    /// The state after recording a failure at `now`.
    pub open spec fn failed(self, now: nat) -> CircuitModel {
        match self.state {
            State::Closed => {
                let failures = saturating_inc(self.failures);
                if failures >= self.failure_threshold {
                    self.tripped(now)
                } else {
                    CircuitModel { failures, ..self }
                }
            },
            State::HalfOpen => self.tripped(now),
            State::Open => self,
        }
    }

    /// The state after `k` successes in a row.
    pub open spec fn succeeded_times(self, k: nat) -> CircuitModel
        decreases k,
    {
        if k == 0 {
            self
        } else {
            self.succeeded_times((k - 1) as nat).succeeded()
        }
    }

    /// The state after `k` failures in a row, all at `now`.
    pub open spec fn failed_times(self, k: nat, now: nat) -> CircuitModel
        decreases k,
    {
        if k == 0 {
            self
        } else {
            self.failed_times((k - 1) as nat, now).failed(now)
        }
    }
}

/// A circuit breaker counting consecutive failures.
///
/// Not internally synchronized; wrap it in a lock to share it across threads.
#[derive(Debug, Clone, Copy, PartialEq, Eq, Structural)]
pub struct CircuitBreaker {
    failure_threshold: u32,
    success_threshold: u32,
    cooldown: u64,
    state: State,
    failures: u32,
    successes: u32,
    opened_at: u64,
}

impl View for CircuitBreaker {
    type V = CircuitModel;

    closed spec fn view(&self) -> CircuitModel {
        CircuitModel {
            failure_threshold: self.failure_threshold as nat,
            success_threshold: self.success_threshold as nat,
            cooldown: self.cooldown as nat,
            state: self.state,
            failures: self.failures as nat,
            successes: self.successes as nat,
            opened_at: self.opened_at as nat,
        }
    }
}

impl CircuitBreaker {
    #[verifier::type_invariant]
    spec fn wf(self) -> bool {
        self@.valid()
    }

    /// Creates a closed breaker that trips after `failure_threshold` consecutive
    /// failures (`0` is treated as `1`) and stays open for `cooldown` time units.
    /// The success threshold starts at `1`.
    pub fn new(failure_threshold: u32, cooldown: u64) -> (cb: CircuitBreaker)
        ensures
            cb@ == (CircuitModel {
                failure_threshold: if failure_threshold == 0 { 1 } else { failure_threshold as nat },
                success_threshold: 1,
                cooldown: cooldown as nat,
                state: State::Closed,
                failures: 0,
                successes: 0,
                opened_at: 0,
            }),
    {
        CircuitBreaker {
            failure_threshold: if failure_threshold == 0 { 1 } else { failure_threshold },
            success_threshold: 1,
            cooldown,
            state: State::Closed,
            failures: 0,
            successes: 0,
            opened_at: 0,
        }
    }

    /// Sets how many consecutive half-open successes close the breaker (`0` is
    /// treated as `1`).
    pub fn with_success_threshold(self, success_threshold: u32) -> (cb: CircuitBreaker)
        ensures
            cb@ == (CircuitModel {
                success_threshold: if success_threshold == 0 { 1 } else { success_threshold as nat },
                ..self@
            }),
    {
        proof {
            use_type_invariant(&self);
        }
        CircuitBreaker {
            success_threshold: if success_threshold == 0 { 1 } else { success_threshold },
            ..self
        }
    }

    /// Returns the current state without advancing time.
    pub fn state(&self) -> (s: State)
        ensures
            s == self@.state,
    {
        self.state
    }

    /// Returns the configured failure threshold.
    pub fn failure_threshold(&self) -> (t: u32)
        ensures
            t == self@.failure_threshold,
            t >= 1,
    {
        proof {
            use_type_invariant(self);
        }
        self.failure_threshold
    }

    /// Returns the configured success threshold.
    pub fn success_threshold(&self) -> (t: u32)
        ensures
            t == self@.success_threshold,
            t >= 1,
    {
        proof {
            use_type_invariant(self);
        }
        self.success_threshold
    }

    /// Returns the configured cooldown.
    pub fn cooldown(&self) -> (c: u64)
        ensures
            c == self@.cooldown,
    {
        self.cooldown
    }

    /// Returns whether a call may proceed at `now`, moving an open breaker whose
    /// cooldown has elapsed to half-open. A clock that moves backwards keeps the
    /// breaker open.
    pub fn allow(&mut self, now: u64) -> (ok: bool)
        ensures
            (final(self)@, ok) == old(self)@.allowed(now as nat),
    {
        proof {
            use_type_invariant(&*self);
        }
        if self.state == State::Open && now.saturating_sub(self.opened_at) >= self.cooldown {
            self.state = State::HalfOpen;
            self.successes = 0;
        }
        self.state != State::Open
    }

    /// Records that an allowed call succeeded.
    pub fn on_success(&mut self)
        ensures
            final(self)@ == old(self)@.succeeded(),
    {
        proof {
            use_type_invariant(&*self);
        }
        match self.state {
            State::Closed => self.failures = 0,
            State::HalfOpen => {
                let successes = self.successes.saturating_add(1);
                if successes >= self.success_threshold {
                    *self = CircuitBreaker {
                        state: State::Closed,
                        failures: 0,
                        successes: 0,
                        ..*self
                    };
                } else {
                    self.successes = successes;
                }
            },
            State::Open => {},
        }
    }

    /// Records that an allowed call failed at `now`.
    pub fn on_failure(&mut self, now: u64)
        ensures
            final(self)@ == old(self)@.failed(now as nat),
    {
        proof {
            use_type_invariant(&*self);
        }
        match self.state {
            State::Closed => {
                let failures = self.failures.saturating_add(1);
                if failures >= self.failure_threshold {
                    self.trip(now);
                } else {
                    self.failures = failures;
                }
            },
            State::HalfOpen => self.trip(now),
            State::Open => {},
        }
    }

    /// Forces the breaker open as of `now`.
    pub fn trip(&mut self, now: u64)
        ensures
            final(self)@ == old(self)@.tripped(now as nat),
    {
        proof {
            use_type_invariant(&*self);
        }
        *self = CircuitBreaker {
            state: State::Open,
            opened_at: now,
            failures: 0,
            successes: 0,
            ..*self
        };
    }

    /// Forces the breaker closed and clears its counters.
    pub fn reset(&mut self)
        ensures
            final(self)@ == old(self)@.cleared(),
    {
        proof {
            use_type_invariant(&*self);
        }
        *self = CircuitBreaker {
            state: State::Closed,
            failures: 0,
            successes: 0,
            opened_at: 0,
            ..*self
        };
    }
}

/// Every transition keeps the breaker's invariant.
pub proof fn law_transitions_keep_invariant(s: CircuitModel, now: u64)
    requires
        s.valid(),
    ensures
        s.allowed(now as nat).0.valid(),
        s.succeeded().valid(),
        s.failed(now as nat).valid(),
        s.tripped(now as nat).valid(),
        s.cleared().valid(),
{
}

/// Outcomes reported while the breaker is open change nothing.
pub proof fn law_outcomes_ignored_while_open(s: CircuitModel, now: nat)
    requires
        s.state == State::Open,
    ensures
        s.succeeded() == s,
        s.failed(now) == s,
{
}

/// An open breaker rejects calls until `cooldown` time units have passed since
/// it opened (a clock behind the opening time counts as no time passed), and
/// then lets the next call through as half-open.
pub proof fn law_open_waits_for_cooldown(s: CircuitModel, now: nat)
    requires
        s.state == State::Open,
    ensures
        s.allowed(now).1 <==> (now >= s.opened_at + s.cooldown || s.cooldown == 0),
        s.allowed(now).1 ==> s.allowed(now).0.state == State::HalfOpen,
        !s.allowed(now).1 ==> s.allowed(now).0 == s,
{
}

/// Closed and half-open breakers always let calls through.
pub proof fn law_not_open_allows(s: CircuitModel, now: nat)
    requires
        s.state != State::Open,
    ensures
        s.allowed(now) == (s, true),
{
}

/// From a closed breaker with no recorded failures, `failure_threshold`
/// consecutive failures trip it, and any shorter run leaves it closed.
pub proof fn law_threshold_failures_trip(s: CircuitModel, now: nat, k: nat)
    requires
        s.valid(),
        s.state == State::Closed,
        s.failures == 0,
        k <= s.failure_threshold,
    ensures
        k < s.failure_threshold ==> s.failed_times(k, now) == (CircuitModel { failures: k, ..s }),
        k == s.failure_threshold ==> s.failed_times(k, now) == s.tripped(now),
    decreases k,
{
    if k > 0 {
        law_threshold_failures_trip(s, now, (k - 1) as nat);
    }
}

/// In half-open, a single failure reopens the breaker with a fresh cooldown
/// starting at `now`.
pub proof fn law_half_open_failure_reopens(s: CircuitModel, now: nat)
    requires
        s.state == State::HalfOpen,
    ensures
        s.failed(now).state == State::Open,
        s.failed(now).opened_at == now,
{
}

/// A success in the closed state clears the run of failures.
pub proof fn law_success_interrupts_failure_run(s: CircuitModel)
    requires
        s.state == State::Closed,
    ensures
        s.succeeded().failures == 0,
        s.succeeded().state == State::Closed,
{
}

/// From a half-open breaker with no recorded successes, `success_threshold`
/// consecutive successes close it, and any shorter run leaves it half-open.
pub proof fn law_threshold_successes_close(s: CircuitModel, k: nat)
    requires
        s.valid(),
        s.state == State::HalfOpen,
        s.successes == 0,
        k <= s.success_threshold,
    ensures
        k < s.success_threshold ==> s.succeeded_times(k) == (CircuitModel { successes: k, ..s }),
        k == s.success_threshold ==> s.succeeded_times(k) == (CircuitModel {
            state: State::Closed,
            failures: 0,
            successes: 0,
            ..s
        }),
    decreases k,
{
    if k > 0 {
        law_threshold_successes_close(s, (k - 1) as nat);
    }
}

} // verus!
