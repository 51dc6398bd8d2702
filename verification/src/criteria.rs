//! Success criteria of a check: which status codes count as healthy, an
//! optional body rule, required response headers, and the probe timeout —
//! together with the validation that rejects a bad configuration before it
//! is ever persisted.

use vstd::prelude::*;

use crate::backoff::RetryPolicy;
use crate::pattern::regex_is_valid;
use crate::pattern::regex_ok;

verus! {

/// Which HTTP status codes count as healthy: an explicit set, or an
/// inclusive range.
#[derive(Debug)]
pub enum StatusRule {
    OneOf(Vec<u16>),
    Range(u16, u16),
}

/// Whether `code` satisfies the status rule.
pub open spec fn status_ok(rule: StatusRule, code: u16) -> bool {
    match rule {
        StatusRule::OneOf(set) => set@.contains(code),
        StatusRule::Range(lo, hi) => lo <= code && code <= hi,
    }
}

impl StatusRule {
    /// Whether `code` satisfies this rule.
    pub fn accepts(&self, code: u16) -> (r: bool)
        ensures
            r == status_ok(*self, code),
    {
        match self {
            StatusRule::OneOf(set) => {
                let mut i: usize = 0;
                while i < set.len()
                    invariant
                        i <= set@.len(),
                        *self == StatusRule::OneOf(*set),
                        forall|j: int| 0 <= j < i ==> set@[j] != code,
                    decreases set@.len() - i,
                {
                    if set[i] == code {
                        assert(set@.contains(code)) by {
                            assert(set@[i as int] == code);
                        }
                        return true;
                    }
                    i = i + 1;
                }
                assert(!set@.contains(code));
                false
            },
            StatusRule::Range(lo, hi) => *lo <= code && code <= *hi,
        }
    }
}

/// A JSON-pointer body rule: the body must parse as JSON and hold, at
/// `path`, a value whose compact JSON rendering is `expected` (so an
/// expected string carries its quotes, e.g. `"ok"`; a number or `true`
/// stands bare).
#[derive(Debug)]
pub struct JsonPathRule {
    pub path: String,
    pub expected: Vec<u8>,
}

/// A response header that must be present: name compared without regard to
/// ASCII case, value compared exactly.
#[derive(Debug)]
pub struct HeaderRule {
    pub name: Vec<u8>,
    pub value: Vec<u8>,
}

/// The success criteria of one HTTP check. At most one of the three body
/// rules may be configured; configuring more is a configuration error
/// rejected at creation time, not at evaluation time.
#[derive(Debug)]
pub struct HttpSpec {
    pub accepted: StatusRule,
    pub timeout_ms: u64,
    pub body_contains: Option<Vec<u8>>,
    pub body_regex: Option<String>,
    pub body_json_path: Option<JsonPathRule>,
    pub required_headers: Vec<HeaderRule>,
}

impl HttpSpec {
    /// At most one body rule kind is configured.
    pub open spec fn single_body_rule(self) -> bool {
        let n = (if self.body_contains is Some {
            1int
        } else {
            0int
        }) + (if self.body_regex is Some {
            1int
        } else {
            0int
        }) + (if self.body_json_path is Some {
            1int
        } else {
            0int
        });
        n <= 1
    }
}

/// The check kinds the platform knows; HTTP today, each later kind one more
/// variant dispatched by the evaluator and executor.
#[derive(Debug)]
pub enum CheckSpec {
    Http(HttpSpec),
}

/// Why a check configuration was rejected at creation time.
#[derive(Clone, Copy, Debug, PartialEq, Eq, Structural)]
pub enum ConfigError {
    ZeroInterval,
    ZeroTimeout,
    InvalidRetryPolicy,
    MultipleBodyRules,
    InvalidRegex,
}

/// The first configuration fault of a proposed check, in a fixed order of
/// inspection; `None` when the configuration is acceptable.
pub open spec fn config_error_of(spec: CheckSpec, interval_ms: u64, retry: RetryPolicy) -> Option<
    ConfigError,
> {
    match spec {
        CheckSpec::Http(h) => {
            if interval_ms == 0 {
                Some(ConfigError::ZeroInterval)
            } else if h.timeout_ms == 0 {
                Some(ConfigError::ZeroTimeout)
            } else if !retry.valid() {
                Some(ConfigError::InvalidRetryPolicy)
            } else if !h.single_body_rule() {
                Some(ConfigError::MultipleBodyRules)
            } else {
                match h.body_regex {
                    Some(pat) => if !regex_ok(pat@) {
                        Some(ConfigError::InvalidRegex)
                    } else {
                        None
                    },
                    None => None,
                }
            }
        },
    }
}

/// Validate a proposed check configuration, reporting the first fault in a
/// fixed order of inspection.
pub fn validate_config(spec: &CheckSpec, interval_ms: u64, retry: &RetryPolicy) -> (r: Option<
    ConfigError,
>)
    ensures
        r == config_error_of(*spec, interval_ms, *retry),
{
    match spec {
        CheckSpec::Http(h) => {
            if interval_ms == 0 {
                return Some(ConfigError::ZeroInterval);
            }
            if h.timeout_ms == 0 {
                return Some(ConfigError::ZeroTimeout);
            }
            if !retry.is_valid() {
                return Some(ConfigError::InvalidRetryPolicy);
            }
            let mut rules: u32 = 0;
            if h.body_contains.is_some() {
                rules = rules + 1;
            }
            if h.body_regex.is_some() {
                rules = rules + 1;
            }
            if h.body_json_path.is_some() {
                rules = rules + 1;
            }
            if rules > 1 {
                return Some(ConfigError::MultipleBodyRules);
            }
            match &h.body_regex {
                Some(pat) => {
                    if !regex_is_valid(pat.as_str()) {
                        Some(ConfigError::InvalidRegex)
                    } else {
                        None
                    }
                },
                None => None,
            }
        },
    }
}
} // verus!
