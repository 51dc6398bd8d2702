use lighthouse::CheckSpec;
use lighthouse::HeaderRule;
use lighthouse::HttpMonitor;
use lighthouse::HttpSpec;
use lighthouse::JsonPathRule;
use lighthouse::Outcome;
use lighthouse::RawOutcome;
use lighthouse::RuleKind;
use lighthouse::StatusRule;

fn plain_spec(codes: Vec<u16>) -> HttpSpec {
    HttpSpec {
        accepted: StatusRule::OneOf(codes),
        timeout_ms: 1000,
        body_contains: None,
        body_regex: None,
        body_json_path: None,
        required_headers: Vec::new(),
    }
}

fn response(status: u16, body: &[u8]) -> RawOutcome {
    RawOutcome::Response { status, latency_ms: 5, body: body.to_vec(), headers: Vec::new() }
}

fn response_with_headers(status: u16, headers: Vec<(&[u8], &[u8])>) -> RawOutcome {
    RawOutcome::Response {
        status,
        latency_ms: 5,
        body: Vec::new(),
        headers: headers.iter().map(|(n, v)| (n.to_vec(), v.to_vec())).collect(),
    }
}

#[test]
fn accepted_status_passes() {
    let spec = plain_spec(vec![200, 204]);
    let ev = HttpMonitor::evaluate(response(204, b""), &spec);
    assert_eq!(ev.outcome, Outcome::Success);
    assert_eq!(ev.detail.http_status, Some(204));
    assert_eq!(ev.detail.failed_rule, None);
}

#[test]
fn unexpected_status_fails_on_status_rule() {
    let spec = plain_spec(vec![200, 204]);
    let ev = HttpMonitor::evaluate(response(503, b""), &spec);
    assert_eq!(ev.outcome, Outcome::Failure);
    assert_eq!(ev.detail.failed_rule, Some(RuleKind::Status));
    assert_eq!(ev.detail.http_status, Some(503));
}

#[test]
fn status_range_accepts_inside_and_rejects_outside() {
    let mut spec = plain_spec(Vec::new());
    spec.accepted = StatusRule::Range(200, 299);
    let ok = HttpMonitor::evaluate(response(204, b""), &spec);
    assert_eq!(ok.outcome, Outcome::Success);
    let bad = HttpMonitor::evaluate(response(301, b""), &spec);
    assert_eq!(bad.outcome, Outcome::Failure);
    assert_eq!(bad.detail.failed_rule, Some(RuleKind::Status));
}

#[test]
fn timeout_passes_through() {
    let spec = plain_spec(vec![200]);
    let ev = HttpMonitor::evaluate(RawOutcome::Timeout { latency_ms: 50 }, &spec);
    assert_eq!(ev.outcome, Outcome::Timeout);
    assert_eq!(ev.latency_ms, 50);
    assert_eq!(ev.detail.http_status, None);
}

#[test]
fn transport_error_passes_through_with_message() {
    let spec = plain_spec(vec![200]);
    let ev = HttpMonitor::evaluate(
        RawOutcome::Error { latency_ms: 3, message: "connection refused".to_string() },
        &spec,
    );
    assert_eq!(ev.outcome, Outcome::Error);
    assert_eq!(ev.detail.message, Some("connection refused".to_string()));
}

#[test]
fn evaluation_is_deterministic() {
    let spec = plain_spec(vec![200]);
    let a = HttpMonitor::evaluate(response(503, b"half a body"), &spec);
    let b = HttpMonitor::evaluate(response(503, b"half a body"), &spec);
    assert_eq!(a.outcome, b.outcome);
    assert_eq!(a.latency_ms, b.latency_ms);
    assert_eq!(a.detail.http_status, b.detail.http_status);
    assert_eq!(a.detail.failed_rule, b.detail.failed_rule);
    assert_eq!(a.detail.message, b.detail.message);
}

#[test]
fn body_contains_rule_matches_substring() {
    let mut spec = plain_spec(vec![200]);
    spec.body_contains = Some(b"\"status\":\"up\"".to_vec());
    let ok = HttpMonitor::evaluate(response(200, b"{\"status\":\"up\",\"n\":1}"), &spec);
    assert_eq!(ok.outcome, Outcome::Success);
    let bad = HttpMonitor::evaluate(response(200, b"{\"status\":\"down\"}"), &spec);
    assert_eq!(bad.outcome, Outcome::Failure);
    assert_eq!(bad.detail.failed_rule, Some(RuleKind::Body));
}

#[test]
fn body_regex_rule_matches_pattern() {
    let mut spec = plain_spec(vec![200]);
    spec.body_regex = Some("^ok [0-9]+$".to_string());
    let ok = HttpMonitor::evaluate(response(200, b"ok 42"), &spec);
    assert_eq!(ok.outcome, Outcome::Success);
    let bad = HttpMonitor::evaluate(response(200, b"ok forty-two"), &spec);
    assert_eq!(bad.outcome, Outcome::Failure);
    assert_eq!(bad.detail.failed_rule, Some(RuleKind::Body));
}

#[test]
fn json_path_rule_matches_value() {
    let mut spec = plain_spec(vec![200]);
    spec.body_json_path = Some(JsonPathRule {
        path: "/data/status".to_string(),
        expected: b"\"healthy\"".to_vec(),
    });
    let ok = HttpMonitor::evaluate(
        response(200, b"{\"data\":{\"status\":\"healthy\"},\"n\":7}"),
        &spec,
    );
    assert_eq!(ok.outcome, Outcome::Success);
    let bad = HttpMonitor::evaluate(response(200, b"{\"data\":{\"status\":\"sick\"}}"), &spec);
    assert_eq!(bad.outcome, Outcome::Failure);
    assert_eq!(bad.detail.failed_rule, Some(RuleKind::Body));
}

#[test]
fn json_path_rule_on_non_json_body_is_failure_not_error() {
    let mut spec = plain_spec(vec![200]);
    spec.body_json_path = Some(JsonPathRule {
        path: "/status".to_string(),
        expected: b"\"ok\"".to_vec(),
    });
    let ev = HttpMonitor::evaluate(response(200, b"<html>not json</html>"), &spec);
    assert_eq!(ev.outcome, Outcome::Failure);
    assert_eq!(ev.detail.failed_rule, Some(RuleKind::Body));
}

#[test]
fn json_path_rule_on_missing_path_is_failure() {
    let mut spec = plain_spec(vec![200]);
    spec.body_json_path = Some(JsonPathRule {
        path: "/missing".to_string(),
        expected: b"1".to_vec(),
    });
    let ev = HttpMonitor::evaluate(response(200, b"{\"present\":1}"), &spec);
    assert_eq!(ev.outcome, Outcome::Failure);
    assert_eq!(ev.detail.failed_rule, Some(RuleKind::Body));
}

#[test]
fn required_header_names_compare_without_case() {
    let mut spec = plain_spec(vec![200]);
    spec.required_headers = vec![HeaderRule {
        name: b"Content-Type".to_vec(),
        value: b"application/json".to_vec(),
    }];
    let ok = HttpMonitor::evaluate(
        response_with_headers(200, vec![(b"content-type", b"application/json")]),
        &spec,
    );
    assert_eq!(ok.outcome, Outcome::Success);
    let bad = HttpMonitor::evaluate(
        response_with_headers(200, vec![(b"content-type", b"text/html")]),
        &spec,
    );
    assert_eq!(bad.outcome, Outcome::Failure);
    assert_eq!(bad.detail.failed_rule, Some(RuleKind::Header));
}

#[test]
fn missing_required_header_fails() {
    let mut spec = plain_spec(vec![200]);
    spec.required_headers = vec![HeaderRule {
        name: b"x-request-id".to_vec(),
        value: b"abc".to_vec(),
    }];
    let ev = HttpMonitor::evaluate(response_with_headers(200, vec![]), &spec);
    assert_eq!(ev.outcome, Outcome::Failure);
    assert_eq!(ev.detail.failed_rule, Some(RuleKind::Header));
}

#[test]
fn status_rule_is_checked_before_body_rule() {
    let mut spec = plain_spec(vec![200]);
    spec.body_contains = Some(b"nowhere".to_vec());
    let ev = HttpMonitor::evaluate(response(500, b"body without the needle"), &spec);
    assert_eq!(ev.outcome, Outcome::Failure);
    assert_eq!(ev.detail.failed_rule, Some(RuleKind::Status));
}

#[test]
fn monitor_constructor_exists() {
    let _m = HttpMonitor::new();
    let spec = plain_spec(vec![200]);
    match CheckSpec::Http(spec) {
        CheckSpec::Http(h) => {
            let ev = HttpMonitor::evaluate(response(200, b""), &h);
            assert_eq!(ev.outcome, Outcome::Success);
        }
    }
}

#[test]
fn empty_contains_needle_always_matches() {
    let mut spec = plain_spec(vec![200]);
    spec.body_contains = Some(Vec::new());
    let ev = HttpMonitor::evaluate(response(200, b""), &spec);
    assert_eq!(ev.outcome, Outcome::Success);
}
