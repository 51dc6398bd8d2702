//! Core of an uptime/health monitoring platform: subscriptions describe a
//! target and the conditions that define "healthy"; the scheduler decides when
//! each subscription's check runs, applies retry backoff on failures, and
//! records results; the evaluator classifies a raw probe outcome against the
//! subscription's success criteria.

mod backoff;
mod bytes;
mod config;
mod criteria;
mod monitor;
mod outcome;
mod pattern;
mod scheduler;
mod store;
mod subscription;

pub use backoff::backoff_spec;
pub use backoff::geometric;
pub use backoff::RetryPolicy;
pub use config::Config;
pub use criteria::CheckSpec;
pub use criteria::ConfigError;
pub use criteria::HeaderRule;
pub use criteria::HttpSpec;
pub use criteria::JsonPathRule;
pub use criteria::StatusRule;
pub use criteria::config_error_of;
pub use criteria::status_ok;
pub use monitor::body_ok;
pub use monitor::eval_check;
pub use monitor::eval_of;
pub use monitor::header_present;
pub use monitor::headers_ok;
pub use monitor::lemma_evaluate_deterministic;
pub use monitor::lemma_response_never_error;
pub use monitor::lemma_transport_passthrough;
pub use monitor::Evaluation;
pub use monitor::HttpMonitor;
pub use pattern::json_lookup;
pub use pattern::regex_found;
pub use pattern::regex_ok;
pub use outcome::CheckResult;
pub use outcome::Detail;
pub use outcome::Outcome;
pub use outcome::RawOutcome;
pub use outcome::RuleKind;
pub use scheduler::Scheduler;
pub use scheduler::DEFAULT_MAX_CONCURRENT;
pub use store::count_in_window;
pub use store::distinct_seq;
pub use store::in_window;
pub use store::last_outcome_of;
pub use store::lemma_distinct_occurrences;
pub use store::lemma_unsubscribed_never_due;
pub use store::lemma_unsubscribed_not_listed;
pub use store::occurrences;
pub use store::reconfigured;
pub use store::total_in_window;
pub use store::with_next_due;
pub use store::with_status;
pub use store::Database;
pub use store::MetricsSummary;
pub use store::StoreError;
pub use subscription::alert_after;
pub use subscription::due_after;
pub use subscription::failures_after;
pub use subscription::sat_add64;
pub use subscription::sat_inc32;
pub use subscription::stepped;
pub use subscription::HttpMethod;
pub use subscription::SubStatus;
pub use subscription::Subscription;
pub use subscription::Target;
