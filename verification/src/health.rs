//! Health status and criticality-aware aggregation.

use vstd::prelude::*;

verus! {

/// The health of a component or of a whole service.
#[derive(Debug, Clone, Copy, PartialEq, Eq, Hash, Structural)]
pub enum Health {
    /// Everything works.
    Healthy,
    /// Working, with reduced capacity or quality.
    Degraded,
    /// Not working.
    Unhealthy,
}

/// How much a check's failure matters to the aggregate.
#[derive(Debug, Clone, Copy, PartialEq, Eq, Hash, Structural)]
pub enum Criticality {
    /// The check's status counts as it is.
    Critical,
    /// The check's failure is capped at [`Health::Degraded`].
    Optional,
}

/// The severity rank of a status: healthy `0`, degraded `1`, unhealthy `2`.
pub open spec fn severity(h: Health) -> nat {
    match h {
        Health::Healthy => 0,
        Health::Degraded => 1,
        Health::Unhealthy => 2,
    }
}

/// The more severe of two statuses.
pub open spec fn worse(a: Health, b: Health) -> Health {
    if severity(b) > severity(a) {
        b
    } else {
        a
    }
}

/// The status a check of the given criticality contributes.
pub open spec fn applied(c: Criticality, h: Health) -> Health {
    match c {
        Criticality::Critical => h,
        Criticality::Optional => if h == Health::Unhealthy {
            Health::Degraded
        } else {
            h
        },
    }
}

impl Health {
    /// Returns the more severe of `self` and `other`.
    pub fn worst(self, other: Health) -> (h: Health)
        ensures
            h == worse(self, other),
    {
        let a = self.rank();
        let b = other.rank();
        if b > a {
            other
        } else {
            self
        }
    }

    fn rank(self) -> (r: u8)
        ensures
            r == severity(self),
    {
        match self {
            Health::Healthy => 0,
            Health::Degraded => 1,
            Health::Unhealthy => 2,
        }
    }
}

impl Criticality {
    /// Returns the status a check of this criticality contributes.
    pub fn apply(self, status: Health) -> (h: Health)
        ensures
            h == applied(self, status),
    {
        match self {
            Criticality::Critical => status,
            Criticality::Optional => match status {
                Health::Unhealthy => Health::Degraded,
                other => other,
            },
        }
    }
}

/// A single named health check, borrowing its strings.
///
/// Build one with [`Check::new`] and the builder methods.
#[derive(Debug, Clone, Copy, PartialEq, Eq, Hash)]
#[non_exhaustive]
pub struct Check<'a> {
    /// The component name.
    pub name: &'a str,
    /// The reported status.
    pub status: Health,
    /// How the status contributes to an aggregate.
    pub criticality: Criticality,
    /// Optional human-readable detail.
    pub detail: Option<&'a str>,
}

impl<'a> Check<'a> {
    /// Creates a critical check with no detail.
    pub fn new(name: &'a str, status: Health) -> (c: Check<'a>)
        ensures
            c.name == name,
            c.status == status,
            c.criticality == Criticality::Critical,
            c.detail == None::<&'a str>,
    {
        Check { name, status, criticality: Criticality::Critical, detail: None }
    }

    /// Marks the check critical (the default).
    pub fn critical(self) -> (c: Check<'a>)
        ensures
            c == (Check { criticality: Criticality::Critical, ..self }),
    {
        Check { criticality: Criticality::Critical, ..self }
    }

    /// Marks the check optional: its failure is capped at degraded.
    pub fn optional(self) -> (c: Check<'a>)
        ensures
            c == (Check { criticality: Criticality::Optional, ..self }),
    {
        Check { criticality: Criticality::Optional, ..self }
    }

    /// Attaches a detail message.
    pub fn with_detail(self, detail: &'a str) -> (c: Check<'a>)
        ensures
            c == (Check { detail: Some(detail), ..self }),
    {
        Check { detail: Some(detail), ..self }
    }

    /// Returns the status this check contributes to an aggregate.
    pub fn effective(self) -> (h: Health)
        ensures
            h == applied(self.criticality, self.status),
    {
        self.criticality.apply(self.status)
    }
}

/// The aggregate of the first `n` checks: the worst effective status, healthy
/// when there are none.
pub open spec fn aggregate_of(checks: Seq<Check>, n: nat) -> Health
    decreases n,
{
    if n == 0 {
        Health::Healthy
    } else {
        worse(
            aggregate_of(checks, (n - 1) as nat),
            applied(checks[n - 1].criticality, checks[n - 1].status),
        )
    }
}

/// Aggregates checks into one status: the worst effective status, so a
/// critical failure makes the result unhealthy while an optional one only
/// degrades it. No checks at all is healthy.
pub fn aggregate(checks: &[Check]) -> (h: Health)
    ensures
        h == aggregate_of(checks@, checks@.len()),
{
    let mut acc = Health::Healthy;
    let mut i: usize = 0;
    while i < checks.len()
        invariant
            i <= checks@.len(),
            acc == aggregate_of(checks@, i as nat),
        decreases checks@.len() - i,
    {
        acc = acc.worst(checks[i].effective());
        i = i + 1;
    }
    acc
}

/// The aggregate is at least as severe as every check's effective status, and
/// it is the effective status of one of them unless there are none.
pub proof fn law_aggregate_is_worst(checks: Seq<Check>, n: nat)
    requires
        n <= checks.len(),
    ensures
        forall|i: int|
            0 <= i < n ==> severity(applied(checks[i].criticality, checks[i].status)) <= severity(
                #[trigger] aggregate_of(checks, n),
            ),
        aggregate_of(checks, n) == Health::Healthy || exists|i: int|
            0 <= i < n && aggregate_of(checks, n) == applied(
                checks[i].criticality,
                checks[i].status,
            ),
    decreases n,
{
    if n > 0 {
        law_aggregate_is_worst(checks, (n - 1) as nat);
        let agg = aggregate_of(checks, n);
        if agg != Health::Healthy {
            if agg == applied(checks[n - 1].criticality, checks[n - 1].status) {
                assert(0 <= n - 1 < n);
            } else {
                let prev = aggregate_of(checks, (n - 1) as nat);
                let j = choose|j: int|
                    0 <= j < n - 1 && prev == applied(checks[j].criticality, checks[j].status);
                assert(0 <= j < n);
            }
        }
    }
}

/// An optional check never makes the aggregate worse than degraded.
pub proof fn law_optional_only_degrades(c: Criticality, h: Health)
    requires
        c == Criticality::Optional,
    ensures
        severity(applied(c, h)) <= 1,
{
}

} // verus!
