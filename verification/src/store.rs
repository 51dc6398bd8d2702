//! The subscription store and result sink: an owned in-memory index of
//! subscriptions by identifier, plus the append-only history of check
//! results and the aggregation query behind the metrics endpoint.

use vstd::prelude::*;

use crate::backoff::RetryPolicy;
use crate::criteria::config_error_of;
use crate::criteria::validate_config;
use crate::criteria::CheckSpec;
use crate::criteria::ConfigError;
use crate::monitor::Evaluation;
use crate::outcome::CheckResult;
use crate::outcome::Outcome;
use crate::subscription::alert_after;
use crate::subscription::stepped;
use crate::subscription::SubStatus;
use crate::subscription::Subscription;
use crate::subscription::Target;

verus! {

/// Why a store operation was refused.
#[derive(Clone, Copy, Debug, PartialEq, Eq, Structural)]
pub enum StoreError {
    /// The proposed configuration was rejected before persistence.
    Rejected(ConfigError),
    DuplicateId,
    NotFound,
    /// The subscription is terminally unsubscribed and takes no further
    /// transitions.
    Unsubscribed,
}

/// Counts of recorded results for one subscription inside a time window.
#[derive(Clone, Copy, Debug, PartialEq, Eq, Structural)]
pub struct MetricsSummary {
    pub total: usize,
    pub success: usize,
    pub failure: usize,
    pub timeout: usize,
    pub error: usize,
}

/// No identifier occurs twice.
pub open spec fn distinct_seq(s: Seq<u64>) -> bool {
    forall|p: int, q: int|
        #![trigger s[p], s[q]]
        0 <= p < s.len() && 0 <= q < s.len() && s[p] == s[q] ==> p == q
}

/// How often `x` occurs in `s`.
pub open spec fn occurrences(s: Seq<u64>, x: u64) -> int
    decreases s.len(),
{
    if s.len() == 0 {
        0
    } else {
        occurrences(s.drop_last(), x) + if s.last() == x {
            1int
        } else {
            0int
        }
    }
}

/// In a duplicate-free sequence every identifier occurs exactly once or not
/// at all.
pub proof fn lemma_distinct_occurrences(s: Seq<u64>, x: u64)
    requires
        distinct_seq(s),
    ensures
        occurrences(s, x) == if s.contains(x) {
            1int
        } else {
            0int
        },
    decreases s.len(),
{
    if s.len() > 0 {
        let t = s.drop_last();
        assert(distinct_seq(t)) by {
            assert(forall|p: int| 0 <= p < t.len() ==> t[p] == s[p]);
        }
        lemma_distinct_occurrences(t, x);
        if s.last() == x {
            assert(!t.contains(x)) by {
                if t.contains(x) {
                    let m = choose|m: int| 0 <= m < t.len() && t[m] == x;
                    assert(s[m] == s[s.len() - 1]);
                }
            }
            assert(s.contains(x)) by {
                assert(s[s.len() - 1] == x);
            }
        } else {
            if s.contains(x) {
                let m = choose|m: int| 0 <= m < s.len() && s[m] == x;
                assert(m < s.len() - 1);
                assert(t[m] == x);
                assert(t.contains(x));
            }
            if t.contains(x) {
                let m = choose|m: int| 0 <= m < t.len() && t[m] == x;
                assert(s[m] == x);
                assert(s.contains(x));
            }
        }
    }
}

/// `r` belongs to subscription `id` and was executed inside `[from, to]`.
pub open spec fn in_window(r: CheckResult, id: u64, from: u64, to: u64) -> bool {
    r.subscription_id == id && from <= r.executed_at && r.executed_at <= to
}

/// How many records of `h` fall to subscription `id`, inside the window,
/// with outcome `o`.
pub open spec fn count_in_window(h: Seq<CheckResult>, id: u64, from: u64, to: u64, o: Outcome) -> int
    decreases h.len(),
{
    if h.len() == 0 {
        0
    } else {
        count_in_window(h.drop_last(), id, from, to, o) + if in_window(h.last(), id, from, to)
            && h.last().outcome == o {
            1int
        } else {
            0int
        }
    }
}

/// How many records of `h` fall to subscription `id` inside the window,
/// whatever their outcome.
pub open spec fn total_in_window(h: Seq<CheckResult>, id: u64, from: u64, to: u64) -> int
    decreases h.len(),
{
    if h.len() == 0 {
        0
    } else {
        total_in_window(h.drop_last(), id, from, to) + if in_window(h.last(), id, from, to) {
            1int
        } else {
            0int
        }
    }
}

/// The outcome of the most recent recorded check of subscription `id`, if
/// any: the status summary the sink keeps per subscription.
pub open spec fn last_outcome_of(h: Seq<CheckResult>, id: u64) -> Option<Outcome>
    decreases h.len(),
{
    if h.len() == 0 {
        None
    } else if h.last().subscription_id == id {
        Some(h.last().outcome)
    } else {
        last_outcome_of(h.drop_last(), id)
    }
}

/// `s` with only its status replaced.
pub open spec fn with_status(s: Subscription, st: SubStatus) -> Subscription {
    Subscription { status: st, ..s }
}

/// `s` with only its next-due time replaced.
pub open spec fn with_next_due(s: Subscription, t: u64) -> Subscription {
    Subscription { next_due_at: t, ..s }
}

/// `s` with its criteria, cadence and retry policy replaced.
pub open spec fn reconfigured(
    s: Subscription,
    check_spec: CheckSpec,
    interval_ms: u64,
    retry: RetryPolicy,
) -> Subscription {
    Subscription { check_spec, interval_ms, retry, ..s }
}

/// The in-memory subscription store and result sink. The scheduler is its
/// sole writer; everything the platform knows is reconstructible from it.
#[derive(Debug)]
pub struct Database {
    pub subs: Vec<Subscription>,
    pub history: Vec<CheckResult>,
}

impl Database {
    /// Identifiers are unique and every stored configuration is acceptable.
    pub open spec fn wf(self) -> bool {
        &&& forall|i: int, j: int|
            #![trigger self.subs@[i].id, self.subs@[j].id]
            0 <= i < self.subs@.len() && 0 <= j < self.subs@.len() && self.subs@[i].id
                == self.subs@[j].id ==> i == j
        &&& forall|i: int| 0 <= i < self.subs@.len() ==> (#[trigger] self.subs@[i]).config_ok()
    }

    /// Some stored subscription carries `id`.
    pub open spec fn has_sub(self, id: u64) -> bool {
        exists|i: int| 0 <= i < self.subs@.len() && self.subs@[i].id == id
    }

    /// The index of the subscription carrying `id`; meaningful under `wf`
    /// when `has_sub(id)`.
    pub open spec fn idx_of(self, id: u64) -> int {
        choose|i: int| 0 <= i < self.subs@.len() && self.subs@[i].id == id
    }

    /// The stored subscription carrying `id`.
    pub open spec fn sub_of(self, id: u64) -> Subscription {
        self.subs@[self.idx_of(id)]
    }

    /// An empty store: no subscriptions, no history.
    pub fn new() -> (db: Database)
        ensures
            db.wf(),
            db.subs@ == Seq::<Subscription>::empty(),
            db.history@ == Seq::<CheckResult>::empty(),
    {
        Database { subs: Vec::new(), history: Vec::new() }
    }

    /// The position of the subscription carrying `id`, if any.
    pub fn find_index(&self, id: u64) -> (r: Option<usize>)
        ensures
            (match r {
                Some(i) => i < self.subs@.len() && self.subs@[i as int].id == id,
                None => !self.has_sub(id),
            }),
    {
        let mut i: usize = 0;
        while i < self.subs.len()
            invariant
                i <= self.subs@.len(),
                forall|j: int| 0 <= j < i ==> self.subs@[j].id != id,
            decreases self.subs@.len() - i,
        {
            if self.subs[i].id == id {
                return Some(i);
            }
            i = i + 1;
        }
        None
    }

    /// The stored subscription carrying `id`, if any.
    pub fn get(&self, id: u64) -> (r: Option<&Subscription>)
        requires
            self.wf(),
        ensures
            (match r {
                Some(s) => self.has_sub(id) && *s == self.sub_of(id),
                None => !self.has_sub(id),
            }),
    {
        match self.find_index(id) {
            Some(i) => {
                assert(self.has_sub(id)) by {
                    assert(self.subs@[i as int].id == id);
                }
                assert(self.idx_of(id) == i as int);
                Some(&self.subs[i])
            },
            None => None,
        }
    }

    /// Register a new subscription: validate its configuration, refuse a
    /// duplicate identifier, and otherwise store it Active and due at `now`.
    pub fn create(
        &mut self,
        id: u64,
        target: Target,
        check_spec: CheckSpec,
        interval_ms: u64,
        retry: RetryPolicy,
        now: u64,
    ) -> (r: Result<(), StoreError>)
        requires
            old(self).wf(),
        ensures
            final(self).wf(),
            final(self).history@ == old(self).history@,
            (match config_error_of(check_spec, interval_ms, retry) {
                Some(e) => r == Err::<(), StoreError>(StoreError::Rejected(e)) && *final(self)
                    == *old(self),
                None => {
                    if old(self).has_sub(id) {
                        r == Err::<(), StoreError>(StoreError::DuplicateId) && *final(self)
                            == *old(self)
                    } else {
                        r == Ok::<(), StoreError>(()) && final(self).subs@ == old(self).subs@.push(
                            (Subscription {
                                id,
                                target,
                                check_spec,
                                interval_ms,
                                retry,
                                status: SubStatus::Active,
                                next_due_at: now,
                                consecutive_failures: 0,
                            }),
                        )
                    }
                },
            }),
    {
        if let Some(e) = validate_config(&check_spec, interval_ms, &retry) {
            return Err(StoreError::Rejected(e));
        }
        if self.find_index(id).is_some() {
            return Err(StoreError::DuplicateId);
        }
        let sub = Subscription {
            id,
            target,
            check_spec,
            interval_ms,
            retry,
            status: SubStatus::Active,
            next_due_at: now,
            consecutive_failures: 0,
        };
        assert(sub.config_ok());
        self.subs.push(sub);
        assert(self.wf()) by {
            assert(forall|j: int|
                0 <= j < old(self).subs@.len() ==> self.subs@[j] == old(self).subs@[j]);
        }
        Ok(())
    }

    /// Replace the criteria, cadence and retry policy of one subscription,
    /// after validating them; scheduling state and status are untouched.
    pub fn update(
        &mut self,
        id: u64,
        check_spec: CheckSpec,
        interval_ms: u64,
        retry: RetryPolicy,
    ) -> (r: Result<(), StoreError>)
        requires
            old(self).wf(),
        ensures
            final(self).wf(),
            final(self).history@ == old(self).history@,
            (match config_error_of(check_spec, interval_ms, retry) {
                Some(e) => r == Err::<(), StoreError>(StoreError::Rejected(e)) && *final(self)
                    == *old(self),
                None => {
                    if !old(self).has_sub(id) {
                        r == Err::<(), StoreError>(StoreError::NotFound) && *final(self) == *old(
                            self,
                        )
                    } else if old(self).sub_of(id).status is Unsubscribed {
                        r == Err::<(), StoreError>(StoreError::Unsubscribed) && *final(self)
                            == *old(self)
                    } else {
                        r == Ok::<(), StoreError>(()) && final(self).subs@ == old(
                            self,
                        ).subs@.update(
                            old(self).idx_of(id),
                            reconfigured(old(self).sub_of(id), check_spec, interval_ms, retry),
                        )
                    }
                },
            }),
    {
        if let Some(e) = validate_config(&check_spec, interval_ms, &retry) {
            return Err(StoreError::Rejected(e));
        }
        let i = match self.find_index(id) {
            Some(i) => i,
            None => {
                return Err(StoreError::NotFound);
            },
        };
        proof {
            self.lemma_found_index(id, i as int);
        }
        if matches!(self.subs[i].status, SubStatus::Unsubscribed) {
            return Err(StoreError::Unsubscribed);
        }
        let ghost pre = *self;
        self.subs[i].check_spec = check_spec;
        self.subs[i].interval_ms = interval_ms;
        self.subs[i].retry = retry;
        proof {
            assert(self.subs@ =~= pre.subs@.update(
                i as int,
                reconfigured(pre.sub_of(id), check_spec, interval_ms, retry),
            ));
            lemma_wf_after_update(pre, *self, i as int);
        }
        Ok(())
    }

    /// Pause an active or paused subscription; a terminally unsubscribed
    /// one takes no further transitions.
    pub fn pause(&mut self, id: u64) -> (r: Result<(), StoreError>)
        requires
            old(self).wf(),
        ensures
            final(self).wf(),
            final(self).history@ == old(self).history@,
            (if !old(self).has_sub(id) {
                r == Err::<(), StoreError>(StoreError::NotFound) && *final(self) == *old(self)
            } else if old(self).sub_of(id).status is Unsubscribed {
                r == Err::<(), StoreError>(StoreError::Unsubscribed) && *final(self) == *old(self)
            } else {
                r == Ok::<(), StoreError>(()) && final(self).subs@ == old(self).subs@.update(
                    old(self).idx_of(id),
                    with_status(old(self).sub_of(id), SubStatus::Paused),
                )
            }),
    {
        let i = match self.find_index(id) {
            Some(i) => i,
            None => {
                return Err(StoreError::NotFound);
            },
        };
        proof {
            self.lemma_found_index(id, i as int);
        }
        if matches!(self.subs[i].status, SubStatus::Unsubscribed) {
            return Err(StoreError::Unsubscribed);
        }
        let ghost pre = *self;
        self.subs[i].status = SubStatus::Paused;
        proof {
            assert(self.subs@ =~= pre.subs@.update(
                i as int,
                with_status(pre.sub_of(id), SubStatus::Paused),
            ));
            lemma_wf_after_update(pre, *self, i as int);
        }
        Ok(())
    }

    /// Unsubscribe: move the subscription to its terminal state. Idempotent;
    /// the historical check results remain untouched and queryable.
    pub fn unsubscribe(&mut self, id: u64) -> (r: Result<(), StoreError>)
        requires
            old(self).wf(),
        ensures
            final(self).wf(),
            final(self).history@ == old(self).history@,
            (if !old(self).has_sub(id) {
                r == Err::<(), StoreError>(StoreError::NotFound) && *final(self) == *old(self)
            } else {
                r == Ok::<(), StoreError>(()) && final(self).subs@ == old(self).subs@.update(
                    old(self).idx_of(id),
                    with_status(old(self).sub_of(id), SubStatus::Unsubscribed),
                )
            }),
    {
        let i = match self.find_index(id) {
            Some(i) => i,
            None => {
                return Err(StoreError::NotFound);
            },
        };
        proof {
            self.lemma_found_index(id, i as int);
        }
        let ghost pre = *self;
        self.subs[i].status = SubStatus::Unsubscribed;
        proof {
            assert(self.subs@ =~= pre.subs@.update(
                i as int,
                with_status(pre.sub_of(id), SubStatus::Unsubscribed),
            ));
            lemma_wf_after_update(pre, *self, i as int);
        }
        Ok(())
    }

    /// Force one subscription to be due at `now`: the one manual exception
    /// to the monotone growth of `next_due_at`.
    pub fn trigger_now(&mut self, id: u64, now: u64) -> (r: Result<(), StoreError>)
        requires
            old(self).wf(),
        ensures
            final(self).wf(),
            final(self).history@ == old(self).history@,
            (if !old(self).has_sub(id) {
                r == Err::<(), StoreError>(StoreError::NotFound) && *final(self) == *old(self)
            } else if old(self).sub_of(id).status is Unsubscribed {
                r == Err::<(), StoreError>(StoreError::Unsubscribed) && *final(self) == *old(self)
            } else {
                r == Ok::<(), StoreError>(()) && final(self).subs@ == old(self).subs@.update(
                    old(self).idx_of(id),
                    with_next_due(old(self).sub_of(id), now),
                )
            }),
    {
        let i = match self.find_index(id) {
            Some(i) => i,
            None => {
                return Err(StoreError::NotFound);
            },
        };
        proof {
            self.lemma_found_index(id, i as int);
        }
        if matches!(self.subs[i].status, SubStatus::Unsubscribed) {
            return Err(StoreError::Unsubscribed);
        }
        let ghost pre = *self;
        self.subs[i].next_due_at = now;
        proof {
            assert(self.subs@ =~= pre.subs@.update(
                i as int,
                with_next_due(pre.sub_of(id), now),
            ));
            lemma_wf_after_update(pre, *self, i as int);
        }
        Ok(())
    }

    /// The index found by `find_index` is the index `idx_of` names.
    proof fn lemma_found_index(&self, id: u64, i: int)
        requires
            self.wf(),
            0 <= i < self.subs@.len(),
            self.subs@[i].id == id,
        ensures
            self.has_sub(id),
            self.idx_of(id) == i,
            self.sub_of(id) == self.subs@[i],
    {
        assert(self.has_sub(id));
        assert(self.subs@[self.idx_of(id)].id == id);
    }

    /// Append one check result to the history. The history is append-only:
    /// nothing else ever writes it, and no record is mutated after the
    /// write.
    pub fn append(&mut self, r: CheckResult)
        ensures
            final(self).subs@ == old(self).subs@,
            final(self).history@ == old(self).history@.push(r),
    {
        self.history.push(r);
    }

    /// Record one evaluation: append the check result to the history and
    /// step the subscription's scheduling state by the retry rules. A
    /// missing or terminally unsubscribed subscription takes no transition
    /// and records nothing.
    pub fn apply_evaluation(&mut self, id: u64, executed_at: u64, eval: Evaluation) -> (r: Option<
        Outcome,
    >)
        requires
            old(self).wf(),
        ensures
            final(self).wf(),
            (if old(self).has_sub(id) && !(old(self).sub_of(id).status is Unsubscribed) {
                &&& r == Some(eval.outcome)
                &&& final(self).subs@ == old(self).subs@.update(
                    old(self).idx_of(id),
                    stepped(old(self).sub_of(id), eval.outcome, executed_at),
                )
                &&& final(self).history@ == old(self).history@.push(
                    (CheckResult {
                        subscription_id: id,
                        executed_at,
                        outcome: eval.outcome,
                        latency_ms: eval.latency_ms,
                        detail: eval.detail,
                        alert: alert_after(old(self).sub_of(id), eval.outcome),
                    }),
                )
            } else {
                r is None && *final(self) == *old(self)
            }),
    {
        let i = match self.find_index(id) {
            Some(i) => i,
            None => {
                return None;
            },
        };
        proof {
            self.lemma_found_index(id, i as int);
        }
        if matches!(self.subs[i].status, SubStatus::Unsubscribed) {
            return None;
        }
        let ghost pre = *self;
        let outcome = eval.outcome;
        let succeeded = matches!(outcome, Outcome::Success);
        let old_cf = self.subs[i].consecutive_failures;
        let new_cf: u32 = if succeeded {
            0
        } else if old_cf == u32::MAX {
            u32::MAX
        } else {
            old_cf + 1
        };
        let interval = self.subs[i].interval_ms;
        let retry = self.subs[i].retry;
        assert(retry.valid());
        let next_due: u64 = if succeeded {
            executed_at.saturating_add(interval)
        } else if new_cf <= retry.max_attempts {
            let b = retry.backoff_ms(new_cf);
            executed_at.saturating_add(b)
        } else {
            executed_at.saturating_add(interval)
        };
        let alert = !succeeded && new_cf > retry.max_attempts;
        self.subs[i].consecutive_failures = new_cf;
        self.subs[i].next_due_at = next_due;
        proof {
            assert(self.subs@ =~= pre.subs@.update(
                i as int,
                stepped(pre.sub_of(id), outcome, executed_at),
            ));
            lemma_wf_after_update(pre, *self, i as int);
        }
        self.history.push(
            CheckResult {
                subscription_id: id,
                executed_at,
                outcome,
                latency_ms: eval.latency_ms,
                detail: eval.detail,
                alert,
            },
        );
        Some(outcome)
    }

    /// The identifiers of every subscription that is due at `now`: Active
    /// and with `next_due_at <= now`. Each eligible subscription appears
    /// exactly once; a paused or unsubscribed one never appears.
    pub fn list_due(&self, now: u64) -> (r: Vec<u64>)
        requires
            self.wf(),
        ensures
            forall|k: int|
                0 <= k < r@.len() ==> self.has_sub(#[trigger] r@[k]) && self.sub_of(
                    r@[k],
                ).due_at(now),
            forall|id: u64|
                self.has_sub(id) && (#[trigger] self.sub_of(id)).due_at(now) ==> r@.contains(id),
            distinct_seq(r@),
            forall|id: u64|
                self.has_sub(id) && (#[trigger] self.sub_of(id)).due_at(now) ==> occurrences(
                    r@,
                    id,
                ) == 1,
    {
        let mut out: Vec<u64> = Vec::new();
        let mut i: usize = 0;
        while i < self.subs.len()
            invariant
                self.wf(),
                i <= self.subs@.len(),
                forall|k: int|
                    #![trigger out@[k]]
                    0 <= k < out@.len() ==> exists|j: int|
                        0 <= j < i && self.subs@[j].id == out@[k] && self.subs@[j].due_at(now),
                forall|j: int|
                    0 <= j < i && (#[trigger] self.subs@[j]).due_at(now) ==> out@.contains(
                        self.subs@[j].id,
                    ),
                forall|p: int, q: int|
                    #![trigger out@[p], out@[q]]
                    0 <= p < out@.len() && 0 <= q < out@.len() && out@[p] == out@[q] ==> p == q,
            decreases self.subs@.len() - i,
        {
            let s = &self.subs[i];
            let ghost out0 = out@;
            let is_due = matches!(s.status, SubStatus::Active) && s.next_due_at <= now;
            if is_due {
                proof {
                    assert(!out0.contains(self.subs@[i as int].id)) by {
                        if out0.contains(self.subs@[i as int].id) {
                            let k = choose|k: int|
                                0 <= k < out0.len() && out0[k] == self.subs@[i as int].id;
                            let j = choose|j: int|
                                0 <= j < i && self.subs@[j].id == out0[k]
                                    && self.subs@[j].due_at(now);
                            assert(false);
                        }
                    }
                }
                out.push(s.id);
                proof {
                    assert(out@ == out0.push(self.subs@[i as int].id));
                    assert forall|j: int|
                        0 <= j < i + 1 && (#[trigger] self.subs@[j]).due_at(
                            now,
                        ) implies out@.contains(self.subs@[j].id) by {
                        if j < i {
                            assert(out0.contains(self.subs@[j].id));
                            let k = choose|k: int|
                                0 <= k < out0.len() && out0[k] == self.subs@[j].id;
                            assert(out@[k] == self.subs@[j].id);
                        } else {
                            assert(out@[out@.len() - 1] == self.subs@[j].id);
                        }
                    }
                    assert forall|p: int, q: int|
                        #![trigger out@[p], out@[q]]
                        0 <= p < out@.len() && 0 <= q < out@.len()
                            && out@[p] == out@[q] implies p == q by {
                        if p < out0.len() && q == out0.len() {
                            assert(out0.contains(out@[q])) by {
                                assert(out0[p] == out@[q]);
                            }
                        } else if q < out0.len() && p == out0.len() {
                            assert(out0.contains(out@[p])) by {
                                assert(out0[q] == out@[p]);
                            }
                        }
                    }
                }
            }
            i = i + 1;
        }
        proof {
            assert forall|k: int|
                0 <= k < out@.len() implies self.has_sub(#[trigger] out@[k]) && self.sub_of(
                out@[k],
            ).due_at(now) by {
                assert(exists|j: int|
                    0 <= j < self.subs@.len() && self.subs@[j].id == out@[k]
                        && self.subs@[j].due_at(now));
                let j = choose|j: int|
                    0 <= j < self.subs@.len() && self.subs@[j].id == out@[k]
                        && self.subs@[j].due_at(now);
                assert(self.has_sub(out@[k]));
                self.lemma_found_index(out@[k], j);
            }
            assert forall|id: u64|
                self.has_sub(id) && (#[trigger] self.sub_of(id)).due_at(now) implies out@.contains(
                id,
            ) by {
                let j = self.idx_of(id);
                assert(0 <= j < self.subs@.len() && self.subs@[j].id == id);
                assert(self.subs@[j].due_at(now));
            }
            assert forall|id: u64|
                self.has_sub(id) && (#[trigger] self.sub_of(id)).due_at(now) implies occurrences(
                out@,
                id,
            ) == 1 by {
                lemma_distinct_occurrences(out@, id);
                assert(out@.contains(id));
            }
        }
        out
    }

    /// The current status summary of one subscription: the outcome of its
    /// most recent recorded check.
    pub fn current_status(&self, id: u64) -> (r: Option<Outcome>)
        ensures
            r == last_outcome_of(self.history@, id),
    {
        proof {
            assert(self.history@.take(self.history@.len() as int) =~= self.history@);
        }
        let mut i: usize = self.history.len();
        while i > 0
            invariant
                i <= self.history@.len(),
                last_outcome_of(self.history@, id) == last_outcome_of(
                    self.history@.take(i as int),
                    id,
                ),
            decreases i,
        {
            i = i - 1;
            proof {
                assert(self.history@.take(i + 1).drop_last() =~= self.history@.take(i as int));
                assert(self.history@.take(i + 1).last() == self.history@[i as int]);
            }
            let rec = &self.history[i];
            if rec.subscription_id == id {
                return Some(rec.outcome);
            }
        }
        None
    }

    /// Aggregate the recorded results of one subscription inside the window
    /// `[from, to]`: how many checks ran, and how many ended in each
    /// outcome.
    pub fn aggregate(&self, id: u64, from: u64, to: u64) -> (r: MetricsSummary)
        ensures
            r.total == total_in_window(self.history@, id, from, to),
            r.success == count_in_window(self.history@, id, from, to, Outcome::Success),
            r.failure == count_in_window(self.history@, id, from, to, Outcome::Failure),
            r.timeout == count_in_window(self.history@, id, from, to, Outcome::Timeout),
            r.error == count_in_window(self.history@, id, from, to, Outcome::Error),
    {
        let mut total: usize = 0;
        let mut success: usize = 0;
        let mut failure: usize = 0;
        let mut timeout: usize = 0;
        let mut error: usize = 0;
        let mut i: usize = 0;
        while i < self.history.len()
            invariant
                i <= self.history@.len(),
                total <= i,
                success <= i,
                failure <= i,
                timeout <= i,
                error <= i,
                total == total_in_window(self.history@.take(i as int), id, from, to),
                success == count_in_window(
                    self.history@.take(i as int),
                    id,
                    from,
                    to,
                    Outcome::Success,
                ),
                failure == count_in_window(
                    self.history@.take(i as int),
                    id,
                    from,
                    to,
                    Outcome::Failure,
                ),
                timeout == count_in_window(
                    self.history@.take(i as int),
                    id,
                    from,
                    to,
                    Outcome::Timeout,
                ),
                error == count_in_window(
                    self.history@.take(i as int),
                    id,
                    from,
                    to,
                    Outcome::Error,
                ),
            decreases self.history@.len() - i,
        {
            proof {
                assert(self.history@.take(i + 1).drop_last() =~= self.history@.take(i as int));
                assert(self.history@.take(i + 1).last() == self.history@[i as int]);
            }
            let rec = &self.history[i];
            let hit = rec.subscription_id == id && from <= rec.executed_at && rec.executed_at
                <= to;
            if hit {
                total = total + 1;
                match rec.outcome {
                    Outcome::Success => success = success + 1,
                    Outcome::Failure => failure = failure + 1,
                    Outcome::Timeout => timeout = timeout + 1,
                    Outcome::Error => error = error + 1,
                }
            }
            i = i + 1;
        }
        proof {
            assert(self.history@.take(self.history@.len() as int) =~= self.history@);
        }
        MetricsSummary { total, success, failure, timeout, error }
    }
}

/// Unsubscribing is terminal for scheduling: a terminally unsubscribed
/// subscription is never due at any time — and since a due list holds only
/// due subscriptions, it appears in no later due list — while its recorded
/// history stays untouched, so every window aggregate over it reads the
/// same before and after.
pub proof fn lemma_unsubscribed_never_due(pre: Database, post: Database, id: u64)
    requires
        pre.wf(),
        pre.has_sub(id),
        post.subs@ == pre.subs@.update(
            pre.idx_of(id),
            with_status(pre.sub_of(id), SubStatus::Unsubscribed),
        ),
        post.history@ == pre.history@,
    ensures
        post.has_sub(id),
        forall|now: u64| !(#[trigger] post.sub_of(id).due_at(now)),
        forall|from: u64, to: u64, o: Outcome|
            count_in_window(post.history@, id, from, to, o) == count_in_window(
                pre.history@,
                id,
                from,
                to,
                o,
            ),
{
    let i = pre.idx_of(id);
    assert(0 <= i < pre.subs@.len() && pre.subs@[i].id == id);
    assert(post.subs@[i].id == id);
    assert(post.has_sub(id));
    lemma_wf_after_update(pre, post, i);
    assert(post.idx_of(id) == i) by {
        assert(post.subs@[post.idx_of(id)].id == id);
    }
    assert(post.sub_of(id).status is Unsubscribed);
}

/// A terminally unsubscribed subscription never stands in a due list: any
/// list whose every entry is due — as `list_due` guarantees of its result —
/// excludes it.
pub proof fn lemma_unsubscribed_not_listed(post: Database, id: u64, now: u64, r: Seq<u64>)
    requires
        post.wf(),
        post.has_sub(id),
        post.sub_of(id).status is Unsubscribed,
        forall|k: int|
            0 <= k < r.len() ==> post.has_sub(#[trigger] r[k]) && post.sub_of(r[k]).due_at(now),
    ensures
        !r.contains(id),
{
    if r.contains(id) {
        let k = choose|k: int| 0 <= k < r.len() && r[k] == id;
        assert(post.sub_of(r[k]).due_at(now));
    }
}

/// Replacing one stored subscription with one that keeps its identifier and
/// an acceptable configuration preserves the store invariant.
proof fn lemma_wf_after_update(pre: Database, post: Database, i: int)
    requires
        pre.wf(),
        0 <= i < pre.subs@.len(),
        post.subs@ == pre.subs@.update(i, post.subs@[i]),
        post.subs@[i].id == pre.subs@[i].id,
        post.subs@[i].config_ok(),
    ensures
        post.wf(),
{
    assert forall|p: int, q: int|
        #![trigger post.subs@[p].id, post.subs@[q].id]
        0 <= p < post.subs@.len() && 0 <= q < post.subs@.len()
            && post.subs@[p].id == post.subs@[q].id implies p == q by {
        assert(post.subs@[p].id == pre.subs@[p].id);
        assert(post.subs@[q].id == pre.subs@[q].id);
    }
    assert forall|p: int| 0 <= p < post.subs@.len() implies (#[trigger] post.subs@[p]).config_ok() by {
        if p != i {
            assert(post.subs@[p] == pre.subs@[p]);
        }
    }
}

} // verus!
