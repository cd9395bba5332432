//! A count-based sliding-window circuit breaker.

use crate::circuit::{saturating_diff, saturating_inc, State};
use vstd::prelude::*;

verus! {

/// The number of failures (`true` entries) in a window of outcomes.
pub open spec fn count_failures(window: Seq<bool>) -> nat
    decreases window.len(),
{
    if window.len() == 0 {
        0
    } else {
        count_failures(window.drop_last()) + if window.last() { 1nat } else { 0nat }
    }
}

proof fn lemma_count_push(window: Seq<bool>, outcome: bool)
    ensures
        count_failures(window.push(outcome)) == count_failures(window) + if outcome { 1nat } else { 0nat },
{
    assert(window.push(outcome).drop_last() =~= window);
}

proof fn lemma_count_front(window: Seq<bool>)
    requires
        window.len() > 0,
    ensures
        count_failures(window) == count_failures(window.drop_first()) + if window[0] { 1nat } else { 0nat },
    decreases window.len(),
{
    if window.len() == 1 {
        assert(window.drop_last().len() == 0);
        assert(window.drop_first().len() == 0);
        assert(count_failures(window.drop_first()) == 0);
        assert(count_failures(window.drop_last()) == 0);
        assert(window.last() == window[0]);
    } else {
        let p = window.drop_last();
        let q = window.drop_first();
        lemma_count_front(p);
        assert(p.drop_first() =~= q.drop_last());
        assert(q.last() == window.last());
        assert(p[0] == window[0]);
        assert(count_failures(window) == count_failures(p) + if window.last() { 1nat } else { 0nat });
        assert(count_failures(p) == count_failures(p.drop_first()) + if p[0] { 1nat } else { 0nat });
        assert(count_failures(q) == count_failures(q.drop_last()) + if q.last() { 1nat } else { 0nat });
    }
}

proof fn lemma_count_bounded(window: Seq<bool>)
    ensures
        count_failures(window) <= window.len(),
    decreases window.len(),
{
    if window.len() > 0 {
        lemma_count_bounded(window.drop_last());
    }
}

/// The full state of a [`RollingBreaker`]; `window` holds the most recent
/// outcomes, oldest first (`true` is a failure).
pub struct RollingModel {
    pub window_size: nat,
    pub failure_threshold: nat,
    pub success_threshold: nat,
    pub cooldown: nat,
    pub state: State,
    pub window: Seq<bool>,
    pub successes: nat,
    pub opened_at: nat,
}

impl RollingModel {
    /// What every rolling breaker keeps: positive thresholds, a window no longer
    /// than its size, a closed breaker holds fewer failures than its threshold,
    /// and only a closed breaker holds outcomes.
    pub open spec fn valid(self) -> bool {
        &&& 1 <= self.failure_threshold <= u32::MAX
        &&& 1 <= self.success_threshold <= u32::MAX
        &&& self.successes <= u32::MAX
        &&& self.window.len() <= self.window_size
        &&& (self.state == State::Closed ==> count_failures(self.window) < self.failure_threshold)
        &&& (self.state != State::Closed ==> self.window.len() == 0)
    }

    /// The window after one more outcome: the oldest entry drops out once the
    /// window is full, and nothing is kept when the window size is zero.
    pub open spec fn recorded(self, failure: bool) -> RollingModel {
        if self.window_size == 0 {
            self
        } else if self.window.len() == self.window_size {
            RollingModel { window: self.window.drop_first().push(failure), ..self }
        } else {
            RollingModel { window: self.window.push(failure), ..self }
        }
    }

    /// The state after a forced trip at `now`.
    pub open spec fn tripped(self, now: nat) -> RollingModel {
        RollingModel { state: State::Open, opened_at: now, window: Seq::empty(), successes: 0, ..self }
    }

    /// The state after a forced reset.
    pub open spec fn cleared(self) -> RollingModel {
        RollingModel {
            state: State::Closed,
            window: Seq::empty(),
            successes: 0,
            opened_at: 0,
            ..self
        }
    }

    /// The state and answer of asking whether a call may proceed at `now`.
    pub open spec fn allowed(self, now: nat) -> (RollingModel, bool) {
        if self.state == State::Open && saturating_diff(now, self.opened_at) >= self.cooldown {
            (RollingModel { state: State::HalfOpen, successes: 0, ..self }, true)
        } else {
            (self, self.state != State::Open)
        }
    }

    /// The state after recording a success.
    pub open spec fn succeeded(self) -> RollingModel {
        match self.state {
            State::Closed => self.recorded(false),
            State::HalfOpen => {
                let successes = saturating_inc(self.successes);
                if successes >= self.success_threshold {
                    self.cleared()
                } else {
                    RollingModel { successes, ..self }
                }
            },
            State::Open => self,
        }
    }

    /// The state after recording a failure at `now`.
    pub open spec fn failed(self, now: nat) -> RollingModel {
        match self.state {
            State::Closed => {
                let next = self.recorded(true);
                if count_failures(next.window) >= self.failure_threshold {
                    self.tripped(now)
                } else {
                    next
                }
            },
            State::HalfOpen => self.tripped(now),
            State::Open => self,
        }
    }
}

/// A circuit breaker that trips on the number of failures within the last
/// `WINDOW` calls rather than on consecutive failures.
///
/// A `WINDOW` of `0` never trips on the failure rate.
#[derive(Debug)]
pub struct RollingBreaker<const WINDOW: usize> {
    failure_threshold: u32,
    success_threshold: u32,
    cooldown: u64,
    state: State,
    outcomes: Vec<bool>,
    head: usize,
    filled: usize,
    failures_in_window: u32,
    successes: u32,
    opened_at: u64,
}

/// `index` moved back into `0..size` when it is at most one lap past the end.
pub open spec fn wrap(index: int, size: int) -> int {
    if index >= size {
        index - size
    } else {
        index
    }
}

impl<const WINDOW: usize> RollingBreaker<WINDOW> {
    /// The outcomes currently in the window, oldest first.
    closed spec fn window(&self) -> Seq<bool> {
        Seq::new(
            self.filled as nat,
            |i: int|
                self.outcomes@[wrap(self.head + WINDOW - self.filled + i, WINDOW as int)],
        )
    }

    /// The ring buffer agrees with its bookkeeping and the model is valid.
    pub closed spec fn wf(&self) -> bool {
        &&& self.outcomes@.len() == WINDOW
        &&& self.filled <= WINDOW
        &&& (WINDOW > 0 ==> self.head < WINDOW)
        &&& (WINDOW == 0 ==> self.head == 0 && self.filled == 0)
        &&& self.failures_in_window == count_failures(self.window())
        &&& self@.valid()
    }
}

impl<const WINDOW: usize> View for RollingBreaker<WINDOW> {
    type V = RollingModel;

    closed spec fn view(&self) -> RollingModel {
        RollingModel {
            window_size: WINDOW as nat,
            failure_threshold: self.failure_threshold as nat,
            success_threshold: self.success_threshold as nat,
            cooldown: self.cooldown as nat,
            state: self.state,
            window: self.window(),
            successes: self.successes as nat,
            opened_at: self.opened_at as nat,
        }
    }
}

impl<const WINDOW: usize> RollingBreaker<WINDOW> {
    /// Creates a closed breaker that trips once `failure_threshold` (`0` is
    /// treated as `1`) of the last `WINDOW` calls have failed, staying open for
    /// `cooldown` time units. The success threshold starts at `1`.
    pub fn new(failure_threshold: u32, cooldown: u64) -> (b: RollingBreaker<WINDOW>)
        ensures
            b@ == RollingModel::fresh(WINDOW as nat, failure_threshold as nat, cooldown as nat),
            b.wf(),
    {
        let b = RollingBreaker {
            failure_threshold: if failure_threshold == 0 { 1 } else { failure_threshold },
            success_threshold: 1,
            cooldown,
            state: State::Closed,
            outcomes: vec![false; WINDOW],
            head: 0,
            filled: 0,
            failures_in_window: 0,
            successes: 0,
            opened_at: 0,
        };
        assert(b.window() =~= Seq::<bool>::empty());
        b
    }

    /// Sets how many consecutive half-open successes close the breaker (`0` is
    /// treated as `1`).
    pub fn with_success_threshold(self, success_threshold: u32) -> (b: RollingBreaker<WINDOW>)
        requires
            self.wf(),
        ensures
            b.wf(),
            b@ == (RollingModel {
                success_threshold: if success_threshold == 0 { 1 } else { success_threshold as nat },
                ..self@
            }),
    {
        let b = RollingBreaker {
            success_threshold: if success_threshold == 0 { 1 } else { success_threshold },
            ..self
        };
        assert(b.window() =~= self.window());
        b
    }

    /// Returns the current state without advancing time.
    pub fn state(&self) -> (s: State)
        ensures
            s == self@.state,
    {
        self.state
    }

    /// The window size (`WINDOW`).
    pub fn window_size(&self) -> (n: usize)
        ensures
            n == self@.window_size,
    {
        WINDOW
    }

    /// The number of failures currently recorded in the window.
    pub fn failures_in_window(&self) -> (n: u32)
        requires
            self.wf(),
        ensures
            n == count_failures(self@.window),
    {
        self.failures_in_window
    }

    /// The configured failure threshold.
    pub fn failure_threshold(&self) -> (t: u32)
        ensures
            t == self@.failure_threshold,
    {
        self.failure_threshold
    }

    /// The configured success threshold.
    pub fn success_threshold(&self) -> (t: u32)
        ensures
            t == self@.success_threshold,
    {
        self.success_threshold
    }

    /// The configured cooldown.
    pub fn cooldown(&self) -> (c: u64)
        ensures
            c == self@.cooldown,
    {
        self.cooldown
    }

    /// Returns whether a call may proceed at `now`, moving an open breaker whose
    /// cooldown has elapsed to half-open.
    pub fn allow(&mut self, now: u64) -> (ok: bool)
        requires
            old(self).wf(),
        ensures
            final(self).wf(),
            (final(self)@, ok) == old(self)@.allowed(now as nat),
    {
        if self.state == State::Open && now.saturating_sub(self.opened_at) >= self.cooldown {
            self.state = State::HalfOpen;
            self.successes = 0;
        }
        self.state != State::Open
    }

    /// Records that an allowed call succeeded.
    pub fn on_success(&mut self)
        requires
            old(self).wf(),
        ensures
            final(self).wf(),
            final(self)@ == old(self)@.succeeded(),
    {
        match self.state {
            State::Closed => {
                proof {
                    let w = self@.window;
                    lemma_count_push(w, false);
                    if w.len() > 0 {
                        lemma_count_front(w);
                        lemma_count_push(w.drop_first(), false);
                    }
                }
                self.record(false);
            },
            State::HalfOpen => {
                let successes = self.successes.saturating_add(1);
                if successes >= self.success_threshold {
                    self.reset();
                } else {
                    self.successes = successes;
                }
            },
            State::Open => {},
        }
    }

    /// Records that an allowed call failed at `now`.
    pub fn on_failure(&mut self, now: u64)
        requires
            old(self).wf(),
        ensures
            final(self).wf(),
            final(self)@ == old(self)@.failed(now as nat),
    {
        match self.state {
            State::Closed => {
                if self.record_would_trip() {
                    self.trip(now);
                } else {
                    self.record(true);
                }
            },
            State::HalfOpen => self.trip(now),
            State::Open => {},
        }
    }

    /// Forces the breaker open as of `now`, clearing the window.
    pub fn trip(&mut self, now: u64)
        requires
            old(self).wf(),
        ensures
            final(self).wf(),
            final(self)@ == old(self)@.tripped(now as nat),
    {
        let mut outcomes = Vec::new();
        core::mem::swap(&mut outcomes, &mut self.outcomes);
        *self = RollingBreaker {
            failure_threshold: self.failure_threshold,
            success_threshold: self.success_threshold,
            cooldown: self.cooldown,
            state: State::Open,
            outcomes,
            head: 0,
            filled: 0,
            failures_in_window: 0,
            successes: 0,
            opened_at: now,
        };
        assert(self.window() =~= Seq::<bool>::empty());
    }

    /// Forces the breaker closed and clears all counters.
    pub fn reset(&mut self)
        requires
            old(self).wf(),
        ensures
            final(self).wf(),
            final(self)@ == old(self)@.cleared(),
    {
        let mut outcomes = Vec::new();
        core::mem::swap(&mut outcomes, &mut self.outcomes);
        *self = RollingBreaker {
            failure_threshold: self.failure_threshold,
            success_threshold: self.success_threshold,
            cooldown: self.cooldown,
            state: State::Closed,
            outcomes,
            head: 0,
            filled: 0,
            failures_in_window: 0,
            successes: 0,
            opened_at: 0,
        };
        assert(self.window() =~= Seq::<bool>::empty());
    }

    /// Whether recording one more failure would bring the window to the
    /// failure threshold.
    fn record_would_trip(&self) -> (trips: bool)
        requires
            self.wf(),
        ensures
            trips == (count_failures(self@.recorded(true).window) >= self@.failure_threshold),
    {
        proof {
            let w = self.window();
            if WINDOW > 0 {
                lemma_count_push(w, true);
                if self.filled == WINDOW {
                    lemma_count_front(w);
                    lemma_count_push(w.drop_first(), true);
                    assert(w[0] == self.outcomes@[self.head as int]);
                }
            }
        }
        if WINDOW == 0 {
            return false;
        }
        let mut count: u64 = self.failures_in_window as u64;
        if self.filled == WINDOW && self.outcomes[self.head] {
            count = count - 1;
        }
        count = count + 1;
        count >= self.failure_threshold as u64
    }

    /// Pushes one outcome into the ring, keeping `failures_in_window` equal to
    /// the number of failures in the window.
    fn record(&mut self, failure: bool)
        requires
            old(self).wf(),
            old(self)@.recorded(failure).valid(),
        ensures
            final(self).wf(),
            final(self)@ == old(self)@.recorded(failure),
    {
        if WINDOW == 0 {
            return;
        }
        let ghost w = self.window();
        proof {
            lemma_count_push(w, failure);
            if self.filled == WINDOW {
                lemma_count_front(w);
                lemma_count_push(w.drop_first(), failure);
                assert(w[0] == self.outcomes@[self.head as int]);
            }
            lemma_count_bounded(w);
        }
        let mut failures = self.failures_in_window;
        let mut filled = self.filled;
        if self.filled == WINDOW {
            if self.outcomes[self.head] {
                failures = failures - 1;
            }
        } else {
            filled = filled + 1;
        }
        if failure {
            failures = failures + 1;
        }
        let old_head = self.head;
        let head = if self.head + 1 == WINDOW { 0 } else { self.head + 1 };
        let mut outcomes = Vec::new();
        core::mem::swap(&mut outcomes, &mut self.outcomes);
        outcomes.set(old_head, failure);
        *self = RollingBreaker {
            failure_threshold: self.failure_threshold,
            success_threshold: self.success_threshold,
            cooldown: self.cooldown,
            state: self.state,
            outcomes,
            head,
            filled,
            failures_in_window: failures,
            successes: self.successes,
            opened_at: self.opened_at,
        };
        assert(self.window() =~= old(self)@.recorded(failure).window);
    }
}

/// Every transition keeps the breaker's invariant, and the window never holds
/// more than `window_size` outcomes.
pub proof fn law_transitions_keep_invariant(s: RollingModel, now: u64, outcome: bool)
    requires
        s.valid(),
    ensures
        s.allowed(now as nat).0.valid(),
        s.succeeded().valid(),
        s.failed(now as nat).valid(),
        s.tripped(now as nat).valid(),
        s.cleared().valid(),
        s.recorded(outcome).window.len() <= s.window_size,
{
    let w = s.window;
    lemma_count_push(w, false);
    lemma_count_push(w, true);
    if w.len() > 0 {
        lemma_count_front(w);
        lemma_count_push(w.drop_first(), false);
        lemma_count_push(w.drop_first(), true);
    }
    assert(count_failures(Seq::<bool>::empty()) == 0);
}

/// Recording into a full window drops the oldest outcome: its failure, if it
/// was one, no longer counts.
pub proof fn law_oldest_outcome_ages_out(s: RollingModel, outcome: bool)
    requires
        s.window_size > 0,
        s.window.len() == s.window_size,
    ensures
        count_failures(s.recorded(outcome).window) + (if s.window[0] { 1nat } else { 0nat })
            == count_failures(s.window) + (if outcome { 1nat } else { 0nat }),
{
    lemma_count_front(s.window);
    lemma_count_push(s.window.drop_first(), outcome);
}

/// With a window of size zero nothing is ever counted, so failures alone never
/// open a closed breaker.
pub proof fn law_zero_window_never_trips_on_rate(s: RollingModel, now: nat)
    requires
        s.valid(),
        s.window_size == 0,
        s.state == State::Closed,
    ensures
        s.failed(now) == s,
        s.succeeded() == s,
{
}

/// Outcomes reported while the breaker is open change nothing.
pub proof fn law_outcomes_ignored_while_open(s: RollingModel, now: nat)
    requires
        s.state == State::Open,
    ensures
        s.succeeded() == s,
        s.failed(now) == s,
{
}

/// A failure trips a closed breaker exactly when, with it recorded, the
/// failures within the window reach the threshold; then the window starts
/// over empty.
pub proof fn law_trips_on_window_failures(s: RollingModel, now: nat)
    requires
        s.valid(),
        s.state == State::Closed,
    ensures
        (s.failed(now).state == State::Open) <==> count_failures(s.recorded(true).window)
            >= s.failure_threshold,
        s.failed(now).state == State::Open ==> s.failed(now).window.len() == 0,
{
}

/// The failures counted in the window never exceed the window size (none at
/// all with a window of size zero), and stay below the threshold while closed.
pub proof fn law_failures_within_window(s: RollingModel)
    requires
        s.valid(),
    ensures
        count_failures(s.window) <= s.window.len() <= s.window_size,
        s.window_size == 0 ==> count_failures(s.window) == 0,
        s.state == State::Closed ==> count_failures(s.window) < s.failure_threshold,
{
    lemma_count_bounded(s.window);
}

/// The last `size` entries of `history` (all of them when there are fewer).
pub open spec fn recent(history: Seq<bool>, size: nat) -> Seq<bool> {
    if history.len() <= size {
        history
    } else {
        history.subrange(history.len() - size, history.len() as int)
    }
}

/// One public call that changes a rolling breaker: `allow(now)`,
/// `on_success()`, `on_failure(now)`, `trip(now)`, `reset()`.
pub enum RollingOp {
    Allow(nat),
    Success,
    Failure(nat),
    Trip(nat),
    Reset,
}

impl RollingModel {
    /// A new breaker, as `RollingBreaker::new` makes it.
    pub open spec fn fresh(window_size: nat, failure_threshold: nat, cooldown: nat) -> RollingModel {
        RollingModel {
            window_size,
            failure_threshold: if failure_threshold == 0 { 1 } else { failure_threshold },
            success_threshold: 1,
            cooldown,
            state: State::Closed,
            window: Seq::empty(),
            successes: 0,
            opened_at: 0,
        }
    }

    /// The state after one call.
    pub open spec fn apply(self, op: RollingOp) -> RollingModel {
        match op {
            RollingOp::Allow(now) => self.allowed(now).0,
            RollingOp::Success => self.succeeded(),
            RollingOp::Failure(now) => self.failed(now),
            RollingOp::Trip(now) => self.tripped(now),
            RollingOp::Reset => self.cleared(),
        }
    }

    /// The outcomes recorded while closed since the window was last emptied
    /// (by a trip, a reset or closing), after one call, given those before it.
    pub open spec fn history_after(self, history: Seq<bool>, op: RollingOp) -> Seq<bool> {
        let next = self.apply(op);
        match op {
            RollingOp::Success => if self.state == State::Closed {
                history.push(false)
            } else if next.state == State::Closed {
                Seq::empty()
            } else {
                history
            },
            RollingOp::Failure(_) => if self.state == State::Closed && next.state == State::Closed {
                history.push(true)
            } else if self.state == State::Open {
                history
            } else {
                Seq::empty()
            },
            RollingOp::Trip(_) => Seq::empty(),
            RollingOp::Reset => Seq::empty(),
            RollingOp::Allow(_) => history,
        }
    }

    /// The state and history after the calls `ops`, in order.
    pub open spec fn run(self, history: Seq<bool>, ops: Seq<RollingOp>) -> (RollingModel, Seq<bool>)
        decreases ops.len(),
    {
        if ops.len() == 0 {
            (self, history)
        } else {
            self.apply(ops[0]).run(self.history_after(history, ops[0]), ops.drop_first())
        }
    }

    /// The window holds exactly the last `window_size` outcomes of `history`,
    /// and only a closed breaker has any history.
    pub open spec fn tracks(self, history: Seq<bool>) -> bool {
        &&& self.valid()
        &&& self.window == recent(history, self.window_size)
        &&& (self.state != State::Closed ==> history.len() == 0)
    }
}

proof fn lemma_recent_push(history: Seq<bool>, size: nat, outcome: bool)
    ensures
        recent(history, size).len() == if history.len() <= size {
            history.len()
        } else {
            size
        },
        size > 0 ==> recent(history.push(outcome), size) == if recent(history, size).len() == size {
            recent(history, size).drop_first().push(outcome)
        } else {
            recent(history, size).push(outcome)
        },
        size == 0 ==> recent(history.push(outcome), size) == Seq::<bool>::empty(),
{
    let h2 = history.push(outcome);
    if size == 0 {
        assert(recent(h2, size) =~= Seq::<bool>::empty());
    } else if history.len() < size {
    } else {
        assert(recent(h2, size) =~= recent(history, size).drop_first().push(outcome));
    }
}

proof fn lemma_step_tracks(s: RollingModel, history: Seq<bool>, op: RollingOp)
    requires
        s.tracks(history),
    ensures
        s.apply(op).tracks(s.history_after(history, op)),
        s.apply(op).window_size == s.window_size,
        s.apply(op).failure_threshold == s.failure_threshold,
{
    law_transitions_keep_invariant(s, 0, false);
    let e = Seq::<bool>::empty();
    assert(recent(e, s.window_size) =~= e);
    let next = s.apply(op);
    let h2 = s.history_after(history, op);
    match op {
        RollingOp::Allow(now) => {
            law_transitions_keep_invariant_at(s, now);
            assert(next.window == recent(h2, s.window_size));
        },
        RollingOp::Failure(now) => {
            law_transitions_keep_invariant_at(s, now);
            lemma_recent_push(history, s.window_size, true);
            if s.state == State::Closed && next.state == State::Closed {
                assert(next == s.recorded(true));
                assert(next.window == recent(h2, s.window_size));
            } else if s.state == State::Open {
                assert(next.window == recent(h2, s.window_size));
            } else {
                assert(next.window == e);
                assert(next.window == recent(h2, s.window_size));
            }
        },
        RollingOp::Trip(now) => {
            law_transitions_keep_invariant_at(s, now);
            assert(next.window == recent(h2, s.window_size));
        },
        RollingOp::Success => {
            lemma_recent_push(history, s.window_size, false);
            if s.state == State::Closed {
                assert(next == s.recorded(false));
                assert(next.window == recent(h2, s.window_size));
            } else if next.state == State::Closed {
                assert(next.window == recent(h2, s.window_size));
            } else {
                assert(next.window == recent(h2, s.window_size));
            }
        },
        RollingOp::Reset => {
            assert(next.window == recent(h2, s.window_size));
        },
    }
}

proof fn law_transitions_keep_invariant_at(s: RollingModel, now: nat)
    requires
        s.valid(),
    ensures
        s.allowed(now).0.valid(),
        s.failed(now).valid(),
        s.tripped(now).valid(),
{
    let w = s.window;
    lemma_count_push(w, true);
    if w.len() > 0 {
        lemma_count_front(w);
        lemma_count_push(w.drop_first(), true);
    }
}

proof fn lemma_run_tracks(s: RollingModel, history: Seq<bool>, ops: Seq<RollingOp>)
    requires
        s.tracks(history),
    ensures
        s.run(history, ops).0.tracks(s.run(history, ops).1),
        s.run(history, ops).0.window_size == s.window_size,
        s.run(history, ops).0.failure_threshold == s.failure_threshold,
    decreases ops.len(),
{
    if ops.len() > 0 {
        lemma_step_tracks(s, history, ops[0]);
        lemma_run_tracks(s.apply(ops[0]), s.history_after(history, ops[0]), ops.drop_first());
    }
}

/// After any sequence of calls on a new breaker, the window holds exactly the
/// last `window_size` outcomes recorded while closed since it was last emptied,
/// so the failures it counts are the failures among those outcomes: never more
/// than the window size, below the threshold while closed. A failure on a
/// closed breaker opens it exactly when those last outcomes, with the failure
/// added, hold at least the threshold of failures (not necessarily
/// consecutive), and opening empties the window.
pub proof fn law_window_is_recent_history(
    window_size: nat,
    failure_threshold: nat,
    cooldown: nat,
    ops: Seq<RollingOp>,
    now: nat,
)
    requires
        failure_threshold <= u32::MAX,
    ensures
        ({
            let (s, h) = RollingModel::fresh(window_size, failure_threshold, cooldown).run(
                Seq::empty(),
                ops,
            );
            &&& s.valid()
            &&& s.window == recent(h, window_size)
            &&& count_failures(s.window) == count_failures(recent(h, window_size))
            &&& count_failures(s.window) <= window_size
            &&& (s.state == State::Closed ==> count_failures(s.window) < s.failure_threshold)
            &&& (s.state == State::Closed ==> ((s.failed(now).state == State::Open)
                <==> count_failures(recent(h.push(true), window_size)) >= s.failure_threshold))
            &&& (s.failed(now).state == State::Open ==> s.failed(now).window.len() == 0)
            &&& s.failed(now).tracks(s.history_after(h, RollingOp::Failure(now)))
        }),
{
    let s0 = RollingModel::fresh(window_size, failure_threshold, cooldown);
    assert(recent(Seq::<bool>::empty(), window_size) =~= Seq::<bool>::empty());
    assert(count_failures(Seq::<bool>::empty()) == 0);
    assert(s0.tracks(Seq::empty()));
    lemma_run_tracks(s0, Seq::empty(), ops);
    let (s, h) = s0.run(Seq::empty(), ops);
    lemma_count_bounded(s.window);
    lemma_recent_push(h, window_size, true);
    lemma_step_tracks(s, h, RollingOp::Failure(now));
    law_transitions_keep_invariant_at(s, now);
}

/// A rolling breaker that is closed or half-open lets every call through and
/// stays as it is.
pub proof fn law_not_open_allows(s: RollingModel, now: nat)
    requires
        s.state != State::Open,
    ensures
        s.allowed(now) == (s, true),
{
}

/// An open rolling breaker refuses calls, unchanged, until the cooldown has
/// passed since it opened; from then on it lets one through and is half-open.
pub proof fn law_open_waits_for_cooldown(s: RollingModel, now: nat)
    requires
        s.state == State::Open,
    ensures
        s.allowed(now).1 <==> (now >= s.opened_at + s.cooldown || s.cooldown == 0),
        s.allowed(now).1 ==> s.allowed(now).0.state == State::HalfOpen,
        !s.allowed(now).1 ==> s.allowed(now).0 == s,
{
}

} // verus!
