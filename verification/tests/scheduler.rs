use lighthouse::CheckSpec;
use lighthouse::Database;
use lighthouse::HttpMethod;
use lighthouse::HttpSpec;
use lighthouse::Outcome;
use lighthouse::RawOutcome;
use lighthouse::RetryPolicy;
use lighthouse::Scheduler;
use lighthouse::StatusRule;
use lighthouse::Target;

fn target() -> Target {
    Target { url: "http://example.test/health".to_string(), method: HttpMethod::Get }
}

fn http_spec() -> CheckSpec {
    CheckSpec::Http(HttpSpec {
        accepted: StatusRule::OneOf(vec![200]),
        timeout_ms: 1000,
        body_contains: None,
        body_regex: None,
        body_json_path: None,
        required_headers: Vec::new(),
    })
}

fn retry_131() -> RetryPolicy {
    RetryPolicy { max_attempts: 3, base_ms: 1000, multiplier: 2, cap_ms: 10000 }
}

fn add_sub(db: &mut Database, id: u64, interval_ms: u64, now: u64) {
    db.create(id, target(), http_spec(), interval_ms, retry_131(), now).unwrap();
}

fn failure_probe() -> RawOutcome {
    RawOutcome::Error { latency_ms: 2, message: "dns failure".to_string() }
}

fn success_probe() -> RawOutcome {
    RawOutcome::Response { status: 200, latency_ms: 4, body: Vec::new(), headers: Vec::new() }
}

fn next_due(s: &Scheduler, id: u64) -> u64 {
    s.db.get(id).unwrap().next_due_at
}

#[test]
fn backoff_offsets_then_interval_cadence() {
    let mut db = Database::new();
    add_sub(&mut db, 1, 60_000, 0);
    let mut sched = Scheduler::new(db);

    let started = sched.poll_cycle(0);
    assert_eq!(started, vec![1]);
    let r = sched.complete(1, failure_probe(), 0);
    assert_eq!(r, Some(Outcome::Error));
    assert_eq!(next_due(&sched, 1), 1_000);

    assert_eq!(sched.poll_cycle(1_000), vec![1]);
    sched.complete(1, failure_probe(), 1_000);
    assert_eq!(next_due(&sched, 1), 3_000);

    assert_eq!(sched.poll_cycle(3_000), vec![1]);
    sched.complete(1, failure_probe(), 3_000);
    assert_eq!(next_due(&sched, 1), 7_000);

    assert_eq!(sched.poll_cycle(7_000), vec![1]);
    sched.complete(1, failure_probe(), 7_000);
    assert_eq!(next_due(&sched, 1), 67_000);
    assert_eq!(sched.db.get(1).unwrap().consecutive_failures, 4);

    let last = sched.db.history.last().unwrap();
    assert!(last.alert);
    assert_eq!(last.outcome, Outcome::Error);
}

#[test]
fn backoff_is_capped() {
    let mut db = Database::new();
    db.create(
        7,
        target(),
        http_spec(),
        60_000,
        RetryPolicy { max_attempts: 5, base_ms: 1000, multiplier: 10, cap_ms: 5000 },
        0,
    )
    .unwrap();
    let mut sched = Scheduler::new(db);

    sched.poll_cycle(0);
    sched.complete(7, failure_probe(), 0);
    assert_eq!(next_due(&sched, 7), 1_000);

    sched.poll_cycle(1_000);
    sched.complete(7, failure_probe(), 1_000);
    assert_eq!(next_due(&sched, 7), 1_000 + 5_000);
}

#[test]
fn success_resets_failure_counter_and_reschedules() {
    let mut db = Database::new();
    add_sub(&mut db, 1, 30_000, 0);
    let mut sched = Scheduler::new(db);

    sched.poll_cycle(0);
    sched.complete(1, failure_probe(), 0);
    assert_eq!(sched.db.get(1).unwrap().consecutive_failures, 1);

    sched.poll_cycle(1_000);
    let r = sched.complete(1, success_probe(), 1_000);
    assert_eq!(r, Some(Outcome::Success));
    let sub = sched.db.get(1).unwrap();
    assert_eq!(sub.consecutive_failures, 0);
    assert_eq!(sub.next_due_at, 31_000);
    assert!(!sched.db.history.last().unwrap().alert);
}

#[test]
fn no_overlapping_execution_for_one_subscription() {
    let mut db = Database::new();
    add_sub(&mut db, 1, 10_000, 0);
    let mut sched = Scheduler::new(db);

    assert_eq!(sched.poll_cycle(0), vec![1]);
    assert_eq!(sched.poll_cycle(0), Vec::<u64>::new());
    assert_eq!(sched.poll_cycle(5), Vec::<u64>::new());

    sched.complete(1, success_probe(), 5);
    assert_eq!(sched.poll_cycle(10_005), vec![1]);
}

#[test]
fn concurrency_bound_limits_dispatch() {
    let mut db = Database::new();
    for id in 1..=10u64 {
        add_sub(&mut db, id, 60_000, 0);
    }
    let mut sched = Scheduler::new(db);

    let first = sched.poll_cycle(0);
    assert_eq!(first.len(), 8);
    let second = sched.poll_cycle(0);
    assert_eq!(second.len(), 0);

    sched.complete(first[0], success_probe(), 1);
    sched.complete(first[1], success_probe(), 1);
    let third = sched.poll_cycle(1);
    assert_eq!(third.len(), 2);
    for id in &third {
        assert!(!first.contains(id));
    }
}

#[test]
fn raised_concurrency_bound_admits_more() {
    let mut db = Database::new();
    for id in 1..=10u64 {
        add_sub(&mut db, id, 60_000, 0);
    }
    let mut sched = Scheduler::new(db);
    sched.set_max_concurrent(10);
    assert_eq!(sched.poll_cycle(0).len(), 10);
}

#[test]
fn completion_for_unknown_execution_is_ignored() {
    let mut db = Database::new();
    add_sub(&mut db, 1, 10_000, 0);
    let mut sched = Scheduler::new(db);

    assert_eq!(sched.complete(1, success_probe(), 0), None);
    assert_eq!(sched.db.history.len(), 0);
    assert_eq!(sched.db.get(1).unwrap().next_due_at, 0);
}

#[test]
fn completion_after_unsubscribe_records_nothing() {
    let mut db = Database::new();
    add_sub(&mut db, 1, 10_000, 0);
    let mut sched = Scheduler::new(db);

    assert_eq!(sched.poll_cycle(0), vec![1]);
    sched.db.unsubscribe(1).unwrap();
    assert_eq!(sched.complete(1, success_probe(), 2), None);
    assert_eq!(sched.db.history.len(), 0);
    assert_eq!(sched.poll_cycle(100_000), Vec::<u64>::new());
}

#[test]
fn paused_subscription_is_not_dispatched() {
    let mut db = Database::new();
    add_sub(&mut db, 1, 10_000, 0);
    add_sub(&mut db, 2, 10_000, 0);
    db.pause(1).unwrap();
    let mut sched = Scheduler::new(db);
    assert_eq!(sched.poll_cycle(0), vec![2]);
}

#[test]
fn history_records_carry_subscription_and_time() {
    let mut db = Database::new();
    add_sub(&mut db, 9, 10_000, 0);
    let mut sched = Scheduler::new(db);
    sched.poll_cycle(0);
    sched.complete(9, success_probe(), 123);
    let rec = sched.db.history.last().unwrap();
    assert_eq!(rec.subscription_id, 9);
    assert_eq!(rec.executed_at, 123);
    assert_eq!(rec.latency_ms, 4);
    assert_eq!(rec.outcome, Outcome::Success);
    assert_eq!(rec.detail.http_status, Some(200));
}

#[test]
fn next_due_time_saturates_at_the_top_of_the_clock() {
    let mut db = Database::new();
    add_sub(&mut db, 1, 10_000, 0);
    let mut sched = Scheduler::new(db);
    sched.poll_cycle(0);
    sched.complete(1, success_probe(), u64::MAX - 5);
    assert_eq!(next_due(&sched, 1), u64::MAX);
}
