//! The scheduler: owns the store, decides each poll cycle which due
//! subscriptions are dispatched under a fixed concurrency bound, guards
//! against overlapping executions of one subscription, and applies each
//! completed evaluation's transition back to the store.

use vstd::prelude::*;

use crate::criteria::CheckSpec;
use crate::monitor::eval_check;
use crate::monitor::HttpMonitor;
use crate::outcome::CheckResult;
use crate::outcome::Outcome;
use crate::outcome::RawOutcome;
use crate::store::distinct_seq;
use crate::store::Database;
use crate::subscription::alert_after;
use crate::subscription::stepped;
use crate::subscription::SubStatus;

verus! {

/// How many checks may run at once when no other bound is configured.
pub const DEFAULT_MAX_CONCURRENT: usize = 8;

/// Appending an identifier that is not yet present keeps a sequence
/// duplicate-free.
proof fn lemma_push_distinct(s: Seq<u64>, x: u64)
    requires
        distinct_seq(s),
        !s.contains(x),
    ensures
        distinct_seq(s.push(x)),
{
    let t = s.push(x);
    assert forall|p: int, q: int|
        #![trigger t[p], t[q]]
        0 <= p < t.len() && 0 <= q < t.len() && t[p] == t[q] implies p == q by {
        if p < s.len() && q == s.len() {
            assert(s.contains(t[q])) by {
                assert(s[p] == t[q]);
            }
        } else if q < s.len() && p == s.len() {
            assert(s.contains(t[p])) by {
                assert(s[q] == t[p]);
            }
        }
    }
}

/// Removing the one occurrence of an identifier from a duplicate-free
/// sequence: the identifier is gone, every other one stays, and the rest
/// remains duplicate-free.
proof fn lemma_remove_keeps(s: Seq<u64>, k: int)
    requires
        0 <= k < s.len(),
        distinct_seq(s),
    ensures
        !s.remove(k).contains(s[k]),
        forall|x: u64| x != s[k] ==> (s.remove(k).contains(x) <==> s.contains(x)),
        distinct_seq(s.remove(k)),
        s.remove(k).len() == s.len() - 1,
{
    s.remove_ensures(k);
    let t = s.remove(k);
    assert(!t.contains(s[k])) by {
        if t.contains(s[k]) {
            let m = choose|m: int| 0 <= m < t.len() && t[m] == s[k];
            if m < k {
                assert(s[m] == s[k]);
            } else {
                assert(s[m + 1] == s[k]);
            }
        }
    }
    assert forall|x: u64| x != s[k] implies (t.contains(x) <==> s.contains(x)) by {
        if t.contains(x) {
            let m = choose|m: int| 0 <= m < t.len() && t[m] == x;
            if m < k {
                assert(s[m] == x);
            } else {
                assert(s[m + 1] == x);
            }
            assert(s.contains(x));
        }
        if s.contains(x) {
            let m = choose|m: int| 0 <= m < s.len() && s[m] == x;
            if m < k {
                assert(t[m] == x);
            } else {
                assert(t[m - 1] == x);
            }
            assert(t.contains(x));
        }
    }
    assert forall|p: int, q: int|
        #![trigger t[p], t[q]]
        0 <= p < t.len() && 0 <= q < t.len() && t[p] == t[q] implies p == q by {
        let a = if p < k {
            p
        } else {
            p + 1
        };
        let b = if q < k {
            q
        } else {
            q + 1
        };
        assert(t[p] == s[a]);
        assert(t[q] == s[b]);
        assert(a == b);
    }
}

/// Whether `v` holds `x`.
fn vec_contains(v: &Vec<u64>, x: u64) -> (r: bool)
    ensures
        r == v@.contains(x),
{
    let mut i: usize = 0;
    while i < v.len()
        invariant
            i <= v@.len(),
            forall|j: int| 0 <= j < i ==> v@[j] != x,
        decreases v@.len() - i,
    {
        if v[i] == x {
            assert(v@.contains(x)) by {
                assert(v@[i as int] == x);
            }
            return true;
        }
        i = i + 1;
    }
    false
}

/// The position of `x` in `v`, if any.
fn vec_find(v: &Vec<u64>, x: u64) -> (r: Option<usize>)
    ensures
        (match r {
            Some(k) => k < v@.len() && v@[k as int] == x,
            None => !v@.contains(x),
        }),
{
    let mut i: usize = 0;
    while i < v.len()
        invariant
            i <= v@.len(),
            forall|j: int| 0 <= j < i ==> v@[j] != x,
        decreases v@.len() - i,
    {
        if v[i] == x {
            return Some(i);
        }
        i = i + 1;
    }
    None
}

/// The coordinating loop's state: the store it is the sole writer of, the
/// set of in-flight executions, and the concurrency bound. On a restart the
/// in-flight set starts empty — everything else is reconstructed from the
/// store, so a lost execution simply becomes due again.
pub struct Scheduler {
    pub db: Database,
    pub executing: Vec<u64>,
    pub max_concurrent: usize,
}

impl Scheduler {
    /// The store invariant, no subscription in flight twice, and the bound
    /// respected.
    pub open spec fn wf(self) -> bool {
        &&& self.db.wf()
        &&& distinct_seq(self.executing@)
        &&& self.executing@.len() <= self.max_concurrent
        &&& self.max_concurrent >= 1
    }

    /// A scheduler over `db` with nothing in flight and the default
    /// concurrency bound.
    pub fn new(db: Database) -> (s: Scheduler)
        requires
            db.wf(),
        ensures
            s.wf(),
            s.db == db,
            s.executing@ == Seq::<u64>::empty(),
            s.max_concurrent == DEFAULT_MAX_CONCURRENT,
    {
        Scheduler { db, executing: Vec::new(), max_concurrent: DEFAULT_MAX_CONCURRENT }
    }

    /// Change the concurrency bound; it cannot drop below what is already
    /// in flight.
    pub fn set_max_concurrent(&mut self, bound: usize)
        requires
            old(self).wf(),
            bound >= 1,
            bound >= old(self).executing@.len(),
        ensures
            final(self).wf(),
            final(self).db == old(self).db,
            final(self).executing@ == old(self).executing@,
            final(self).max_concurrent == bound,
    {
        self.max_concurrent = bound;
    }

    /// One poll cycle at time `now`: dispatch every due subscription that is
    /// not already executing, up to the concurrency bound. Each dispatched
    /// identifier is returned exactly once, so no subscription ever has two
    /// executions in flight; a due subscription left behind means the pool
    /// is full, and it waits for a later cycle.
    pub fn poll_cycle(&mut self, now: u64) -> (r: Vec<u64>)
        requires
            old(self).wf(),
        ensures
            final(self).wf(),
            final(self).db == old(self).db,
            final(self).max_concurrent == old(self).max_concurrent,
            final(self).executing@ == old(self).executing@ + r@,
            forall|k: int|
                #![trigger r@[k]]
                0 <= k < r@.len() ==> old(self).db.has_sub(r@[k]) && old(self).db.sub_of(
                    r@[k],
                ).due_at(now) && !old(self).executing@.contains(r@[k]),
            forall|p: int, q: int|
                #![trigger r@[p], r@[q]]
                0 <= p < r@.len() && 0 <= q < r@.len() && r@[p] == r@[q] ==> p == q,
            forall|id: u64|
                old(self).db.has_sub(id) && (#[trigger] old(self).db.sub_of(id)).due_at(now)
                    ==> final(self).executing@.contains(id) || final(self).executing@.len()
                    == final(self).max_concurrent,
    {
        let due = self.db.list_due(now);
        let ghost exec0 = self.executing@;
        let mut started: Vec<u64> = Vec::new();
        let mut i: usize = 0;
        while i < due.len()
            invariant
                self.db.wf(),
                self.db == old(self).db,
                self.max_concurrent == old(self).max_concurrent,
                distinct_seq(self.executing@),
                self.executing@.len() <= self.max_concurrent,
                i <= due@.len(),
                self.executing@ == exec0 + started@,
                forall|k: int|
                    #![trigger started@[k]]
                    0 <= k < started@.len() ==> self.db.has_sub(started@[k]) && self.db.sub_of(
                        started@[k],
                    ).due_at(now) && !exec0.contains(started@[k]),
                forall|j: int|
                    0 <= j < i ==> self.executing@.contains(#[trigger] due@[j])
                        || self.executing@.len() == self.max_concurrent,
                forall|k: int|
                    #![trigger due@[k]]
                    0 <= k < due@.len() ==> self.db.has_sub(due@[k]) && self.db.sub_of(
                        due@[k],
                    ).due_at(now),
                forall|id: u64|
                    self.db.has_sub(id) && (#[trigger] self.db.sub_of(id)).due_at(now)
                        ==> due@.contains(id),
            decreases due@.len() - i,
        {
            let id = due[i];
            if self.executing.len() < self.max_concurrent {
                if !vec_contains(&self.executing, id) {
                    let ghost e0 = self.executing@;
                    let ghost s0 = started@;
                    self.executing.push(id);
                    started.push(id);
                    proof {
                        lemma_push_distinct(e0, id);
                        assert(self.executing@ =~= exec0 + started@);
                        assert(!exec0.contains(id)) by {
                            if exec0.contains(id) {
                                let m = choose|m: int|
                                    0 <= m < exec0.len() && exec0[m] == id;
                                assert(e0[m] == id);
                                assert(e0.contains(id));
                            }
                        }
                        assert forall|j: int|
                            0 <= j < i + 1 implies self.executing@.contains(#[trigger] due@[j])
                            || self.executing@.len() == self.max_concurrent by {
                            if j < i {
                                if e0.contains(due@[j]) {
                                    let m = choose|m: int|
                                        0 <= m < e0.len() && e0[m] == due@[j];
                                    assert(self.executing@[m] == due@[j]);
                                }
                            } else {
                                assert(self.executing@[self.executing@.len() - 1] == id);
                            }
                        }
                    }
                }
            }
            i = i + 1;
        }
        proof {
            assert forall|id: u64|
                old(self).db.has_sub(id) && (#[trigger] old(self).db.sub_of(id)).due_at(
                now,
            ) implies self.executing@.contains(id) || self.executing@.len()
                == self.max_concurrent by {
                assert(due@.contains(id));
                let j = choose|j: int| 0 <= j < due@.len() && due@[j] == id;
            }
            assert forall|p: int, q: int|
                #![trigger started@[p], started@[q]]
                0 <= p < started@.len() && 0 <= q < started@.len()
                    && started@[p] == started@[q] implies p == q by {
                assert(self.executing@[exec0.len() + p] == started@[p]);
                assert(self.executing@[exec0.len() + q] == started@[q]);
            }
        }
        started
    }

    /// Apply one completed execution at time `now`. A completion for a
    /// subscription that is not in flight is ignored. Otherwise the
    /// subscription leaves the in-flight set; if it still exists and is not
    /// terminally unsubscribed, its probe outcome is evaluated against its
    /// criteria, the result is appended to the history, and its scheduling
    /// state steps by the retry rules.
    pub fn complete(&mut self, id: u64, raw: RawOutcome, now: u64) -> (r: Option<Outcome>)
        requires
            old(self).wf(),
        ensures
            final(self).wf(),
            final(self).max_concurrent == old(self).max_concurrent,
            !old(self).executing@.contains(id) ==> r is None && *final(self) == *old(self),
            old(self).executing@.contains(id) ==> {
                &&& !final(self).executing@.contains(id)
                &&& final(self).executing@.len() == old(self).executing@.len() - 1
                &&& forall|x: u64|
                    x != id ==> (final(self).executing@.contains(x) <==> old(
                        self,
                    ).executing@.contains(x))
                &&& (if old(self).db.has_sub(id) && !(old(self).db.sub_of(id).status
                    is Unsubscribed) {
                    let ev = eval_check(raw, old(self).db.sub_of(id).check_spec);
                    &&& r == Some(ev.outcome)
                    &&& final(self).db.subs@ == old(self).db.subs@.update(
                        old(self).db.idx_of(id),
                        stepped(old(self).db.sub_of(id), ev.outcome, now),
                    )
                    &&& final(self).db.history@ == old(self).db.history@.push(
                        (CheckResult {
                            subscription_id: id,
                            executed_at: now,
                            outcome: ev.outcome,
                            latency_ms: ev.latency_ms,
                            detail: ev.detail,
                            alert: alert_after(old(self).db.sub_of(id), ev.outcome),
                        }),
                    )
                } else {
                    r is None && final(self).db == old(self).db
                })
            },
    {
        let k = match vec_find(&self.executing, id) {
            Some(k) => k,
            None => {
                return None;
            },
        };
        proof {
            assert(self.executing@.contains(id)) by {
                assert(self.executing@[k as int] == id);
            }
            lemma_remove_keeps(self.executing@, k as int);
        }
        self.executing.remove(k);
        let eval = match self.db.get(id) {
            Some(sub) => {
                if matches!(sub.status, SubStatus::Unsubscribed) {
                    None
                } else {
                    match &sub.check_spec {
                        CheckSpec::Http(h) => Some(HttpMonitor::evaluate(raw, h)),
                    }
                }
            },
            None => None,
        };
        match eval {
            Some(ev) => self.db.apply_evaluation(id, now, ev),
            None => None,
        }
    }
}

} // verus!
