//! A subscription: a persisted request to monitor one target on a schedule
//! with defined success criteria.

use vstd::prelude::*;

use crate::backoff::backoff_spec;
use crate::backoff::RetryPolicy;
use crate::criteria::CheckSpec;
use crate::outcome::Outcome;

verus! {

/// Lifecycle state of a subscription. `Unsubscribed` is terminal: it is
/// never selected by the due-query and no later transition leaves it.
#[derive(Clone, Copy, Debug, PartialEq, Eq, Structural)]
pub enum SubStatus {
    Active,
    Paused,
    Unsubscribed,
}

/// The HTTP method a probe uses.
#[derive(Clone, Copy, Debug, PartialEq, Eq, Structural)]
pub enum HttpMethod {
    Get,
    Head,
    Post,
}

/// The semantic address of a check target.
#[derive(Debug)]
pub struct Target {
    pub url: String,
    pub method: HttpMethod,
}

/// One monitored target with its criteria, cadence, retry policy and
/// scheduling state.
#[derive(Debug)]
pub struct Subscription {
    pub id: u64,
    pub target: Target,
    pub check_spec: CheckSpec,
    /// Minimum time between successive checks.
    pub interval_ms: u64,
    pub retry: RetryPolicy,
    pub status: SubStatus,
    /// When the next check is due; mutated only by the scheduler after each
    /// evaluation, and by a manual re-trigger.
    pub next_due_at: u64,
    /// Reset to zero on success, incremented on any failed outcome.
    pub consecutive_failures: u32,
}

impl Subscription {
    /// What creation establishes and every later transition preserves: a
    /// positive cadence and timeout, a growing backoff, and at most one body
    /// rule.
    pub open spec fn config_ok(self) -> bool {
        &&& self.interval_ms >= 1
        &&& self.retry.valid()
        &&& match self.check_spec {
            CheckSpec::Http(h) => h.timeout_ms >= 1 && h.single_body_rule(),
        }
    }

    /// Eligible for dispatch at time `now`.
    pub open spec fn due_at(self, now: u64) -> bool {
        self.status is Active && self.next_due_at <= now
    }
}

/// `a + b` held at the top of the clock: times never wrap around.
pub open spec fn sat_add64(a: u64, b: u64) -> u64 {
    if a + b > u64::MAX {
        u64::MAX
    } else {
        (a + b) as u64
    }
}

/// One more consecutive failure, held at the top of the counter.
pub open spec fn sat_inc32(n: u32) -> u32 {
    if n == u32::MAX {
        u32::MAX
    } else {
        (n + 1) as u32
    }
}

/// The failure counter after one classified outcome: reset on success,
/// one more on any failed outcome.
pub open spec fn failures_after(s: Subscription, o: Outcome) -> u32 {
    if o is Success {
        0
    } else {
        sat_inc32(s.consecutive_failures)
    }
}

/// When the next check is due after one classified outcome at `now`: the
/// normal cadence on success; on a failed outcome, backoff spacing while
/// retries remain, and the normal cadence again once the retry budget is
/// exhausted.
pub open spec fn due_after(s: Subscription, o: Outcome, now: u64) -> u64 {
    if o is Success {
        sat_add64(now, s.interval_ms)
    } else {
        let cf = sat_inc32(s.consecutive_failures);
        if cf <= s.retry.max_attempts {
            sat_add64(now, backoff_spec(s.retry, cf) as u64)
        } else {
            sat_add64(now, s.interval_ms)
        }
    }
}

/// A failed outcome whose retry budget is exhausted is surfaced as an
/// alertable event.
pub open spec fn alert_after(s: Subscription, o: Outcome) -> bool {
    !(o is Success) && failures_after(s, o) > s.retry.max_attempts
}

/// The whole per-subscription transition the scheduler applies after one
/// evaluation: only the failure counter and the next-due time move.
pub open spec fn stepped(s: Subscription, o: Outcome, now: u64) -> Subscription {
    Subscription {
        consecutive_failures: failures_after(s, o),
        next_due_at: due_after(s, o, now),
        ..s
    }
}

} // verus!
