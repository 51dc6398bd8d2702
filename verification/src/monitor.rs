//! The HTTP check evaluator: classifies one raw probe outcome against a
//! subscription's success criteria. Pure — no I/O, no mutation, and the
//! result is a function of the two arguments alone.

use vstd::prelude::*;

use crate::bytes::bytes_eq;
use crate::bytes::contains_seq;
use crate::bytes::contains_subslice;
use crate::bytes::eq_ignore_ascii_case;
use crate::bytes::lower_seq;
use crate::criteria::status_ok;
use crate::criteria::CheckSpec;
use crate::criteria::HeaderRule;
use crate::criteria::HttpSpec;
use crate::outcome::Detail;
use crate::outcome::Outcome;
use crate::outcome::RawOutcome;
use crate::outcome::RuleKind;
use crate::pattern::json_lookup;
use crate::pattern::json_pointer_lookup;
use crate::pattern::regex_found;
use crate::pattern::regex_matches;

verus! {

/// The evaluator for the HTTP check kind.
pub struct HttpMonitor;

/// A classified probe outcome together with its diagnostic detail.
#[derive(Debug)]
pub struct Evaluation {
    pub outcome: Outcome,
    pub latency_ms: u32,
    pub detail: Detail,
}

/// `rule` is satisfied by some response header: name equal up to ASCII
/// case, value equal exactly.
pub open spec fn header_present(headers: Seq<(Vec<u8>, Vec<u8>)>, rule: HeaderRule) -> bool {
    exists|i: int|
        0 <= i < headers.len() && lower_seq(headers[i].0@) == lower_seq(rule.name@)
            && headers[i].1@ == rule.value@
}

/// Every required header of the criteria is present in the response.
pub open spec fn headers_ok(spec: HttpSpec, headers: Seq<(Vec<u8>, Vec<u8>)>) -> bool {
    forall|j: int|
        0 <= j < spec.required_headers@.len() ==> header_present(
            headers,
            spec.required_headers@[j],
        )
}

/// The configured body rule, if any, accepts the body. Rule kinds are
/// inspected in a fixed priority: JSON-pointer, then regex, then substring.
/// A JSON rule against a body that is not JSON fails closed as a match
/// failure.
pub open spec fn body_ok(spec: HttpSpec, body: Seq<u8>) -> bool {
    match spec.body_json_path {
        Some(rule) => json_lookup(body, rule.path@) == Some(rule.expected@),
        None => match spec.body_regex {
            Some(pat) => regex_found(pat@, body),
            None => match spec.body_contains {
                Some(needle) => contains_seq(body, needle@),
                None => true,
            },
        },
    }
}

/// Detail carrying nothing: for outcomes that never saw a response.
pub open spec fn empty_detail() -> Detail {
    Detail { http_status: None, failed_rule: None, message: None }
}

/// The classification of `raw` against `spec`: transport-level timeouts and
/// errors pass through unchanged; a completed response is a success exactly
/// when the status rule, the body rule and the header rules all hold, and
/// otherwise a failure recording the first rule that failed.
pub open spec fn eval_of(raw: RawOutcome, spec: HttpSpec) -> Evaluation {
    match raw {
        RawOutcome::Timeout { latency_ms } => Evaluation {
            outcome: Outcome::Timeout,
            latency_ms,
            detail: empty_detail(),
        },
        RawOutcome::Error { latency_ms, message } => Evaluation {
            outcome: Outcome::Error,
            latency_ms,
            detail: Detail { http_status: None, failed_rule: None, message: Some(message) },
        },
        RawOutcome::Response { status, latency_ms, body, headers } => {
            if !status_ok(spec.accepted, status) {
                Evaluation {
                    outcome: Outcome::Failure,
                    latency_ms,
                    detail: Detail {
                        http_status: Some(status),
                        failed_rule: Some(RuleKind::Status),
                        message: None,
                    },
                }
            } else if !body_ok(spec, body@) {
                Evaluation {
                    outcome: Outcome::Failure,
                    latency_ms,
                    detail: Detail {
                        http_status: Some(status),
                        failed_rule: Some(RuleKind::Body),
                        message: None,
                    },
                }
            } else if !headers_ok(spec, headers@) {
                Evaluation {
                    outcome: Outcome::Failure,
                    latency_ms,
                    detail: Detail {
                        http_status: Some(status),
                        failed_rule: Some(RuleKind::Header),
                        message: None,
                    },
                }
            } else {
                Evaluation {
                    outcome: Outcome::Success,
                    latency_ms,
                    detail: Detail { http_status: Some(status), failed_rule: None, message: None },
                }
            }
        },
    }
}

impl HttpMonitor {
    pub fn new() -> HttpMonitor {
        HttpMonitor
    }

    /// Classify one raw probe outcome against the criteria.
    pub fn evaluate(raw: RawOutcome, spec: &HttpSpec) -> (r: Evaluation)
        ensures
            r == eval_of(raw, *spec),
    {
        match raw {
            RawOutcome::Timeout { latency_ms } => Evaluation {
                outcome: Outcome::Timeout,
                latency_ms,
                detail: Detail { http_status: None, failed_rule: None, message: None },
            },
            RawOutcome::Error { latency_ms, message } => Evaluation {
                outcome: Outcome::Error,
                latency_ms,
                detail: Detail { http_status: None, failed_rule: None, message: Some(message) },
            },
            RawOutcome::Response { status, latency_ms, body, headers } => {
                if !spec.accepted.accepts(status) {
                    Evaluation {
                        outcome: Outcome::Failure,
                        latency_ms,
                        detail: Detail {
                            http_status: Some(status),
                            failed_rule: Some(RuleKind::Status),
                            message: None,
                        },
                    }
                } else if !Self::body_check(spec, &body) {
                    Evaluation {
                        outcome: Outcome::Failure,
                        latency_ms,
                        detail: Detail {
                            http_status: Some(status),
                            failed_rule: Some(RuleKind::Body),
                            message: None,
                        },
                    }
                } else if !Self::headers_check(spec, &headers) {
                    Evaluation {
                        outcome: Outcome::Failure,
                        latency_ms,
                        detail: Detail {
                            http_status: Some(status),
                            failed_rule: Some(RuleKind::Header),
                            message: None,
                        },
                    }
                } else {
                    Evaluation {
                        outcome: Outcome::Success,
                        latency_ms,
                        detail: Detail {
                            http_status: Some(status),
                            failed_rule: None,
                            message: None,
                        },
                    }
                }
            },
        }
    }

    /// Whether the configured body rule, if any, accepts the body.
    fn body_check(spec: &HttpSpec, body: &Vec<u8>) -> (r: bool)
        ensures
            r == body_ok(*spec, body@),
    {
        match &spec.body_json_path {
            Some(rule) => {
                match json_pointer_lookup(body.as_slice(), rule.path.as_str()) {
                    Some(found) => bytes_eq(found.as_slice(), rule.expected.as_slice()),
                    None => false,
                }
            },
            None => match &spec.body_regex {
                Some(pat) => regex_matches(pat.as_str(), body.as_slice()),
                None => match &spec.body_contains {
                    Some(needle) => contains_subslice(body.as_slice(), needle.as_slice()),
                    None => true,
                },
            },
        }
    }

    /// Whether every required header is present in the response.
    fn headers_check(spec: &HttpSpec, headers: &Vec<(Vec<u8>, Vec<u8>)>) -> (r: bool)
        ensures
            r == headers_ok(*spec, headers@),
    {
        let mut j: usize = 0;
        while j < spec.required_headers.len()
            invariant
                j <= spec.required_headers@.len(),
                forall|q: int|
                    0 <= q < j ==> header_present(headers@, spec.required_headers@[q]),
            decreases spec.required_headers@.len() - j,
        {
            if !Self::header_find(headers, &spec.required_headers[j]) {
                return false;
            }
            j = j + 1;
        }
        true
    }

    /// Whether some response header satisfies `rule`.
    fn header_find(headers: &Vec<(Vec<u8>, Vec<u8>)>, rule: &HeaderRule) -> (r: bool)
        ensures
            r == header_present(headers@, *rule),
    {
        let mut i: usize = 0;
        while i < headers.len()
            invariant
                i <= headers@.len(),
                forall|q: int|
                    0 <= q < i ==> !(lower_seq(headers@[q].0@) == lower_seq(rule.name@)
                        && headers@[q].1@ == rule.value@),
            decreases headers@.len() - i,
        {
            let name_hit = eq_ignore_ascii_case(headers[i].0.as_slice(), rule.name.as_slice());
            let value_hit = bytes_eq(headers[i].1.as_slice(), rule.value.as_slice());
            if name_hit && value_hit {
                assert(header_present(headers@, *rule)) by {
                    assert(lower_seq(headers@[i as int].0@) == lower_seq(rule.name@)
                        && headers@[i as int].1@ == rule.value@);
                }
                return true;
            }
            i = i + 1;
        }
        false
    }
}

/// The evaluation of `raw` against a check spec, dispatched on the check
/// kind.
pub open spec fn eval_check(raw: RawOutcome, cs: CheckSpec) -> Evaluation {
    match cs {
        CheckSpec::Http(h) => eval_of(raw, h),
    }
}

/// The evaluator is deterministic and pure: two evaluations of the same raw
/// outcome against the same criteria give the same outcome and the same
/// detail.
pub proof fn lemma_evaluate_deterministic(
    r1: Evaluation,
    r2: Evaluation,
    raw: RawOutcome,
    spec: HttpSpec,
)
    requires
        r1 == eval_of(raw, spec),
        r2 == eval_of(raw, spec),
    ensures
        r1 == r2,
{
}

/// Transport-level outcomes pass through evaluation unchanged: a timed-out
/// probe stays a timeout and a network-level failure stays an error,
/// whatever the criteria say.
pub proof fn lemma_transport_passthrough(raw: RawOutcome, spec: HttpSpec)
    ensures
        raw is Timeout ==> eval_of(raw, spec).outcome is Timeout,
        raw is Error ==> eval_of(raw, spec).outcome is Error,
{
}

/// A completed HTTP exchange is never classified as a transport error: an
/// unmet criterion — a JSON body rule against a body that is not JSON
/// included — is a failure, not an error.
pub proof fn lemma_response_never_error(raw: RawOutcome, spec: HttpSpec)
    requires
        raw is Response,
    ensures
        eval_of(raw, spec).outcome is Success || eval_of(raw, spec).outcome is Failure,
{
}

} // verus!
