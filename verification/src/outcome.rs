//! What a probe observed and how it was classified: the raw transport-level
//! outcome, the classified outcome, and the append-only check result record.

use vstd::prelude::*;

verus! {

/// The classified result of one probe.
#[derive(Clone, Copy, Debug, PartialEq, Eq, Structural)]
pub enum Outcome {
    Success,
    Failure,
    Timeout,
    Error,
}

/// Which criterion an evaluation failed on, for diagnosability.
#[derive(Clone, Copy, Debug, PartialEq, Eq, Structural)]
pub enum RuleKind {
    Status,
    Body,
    Header,
}

/// What one probe observed at the transport level, before evaluation.
#[derive(Debug)]
pub enum RawOutcome {
    /// A complete HTTP exchange: final status, wall-clock latency, body and
    /// response headers.
    Response { status: u16, latency_ms: u32, body: Vec<u8>, headers: Vec<(Vec<u8>, Vec<u8>)> },
    /// The probe exceeded its timeout and was cancelled; no partial response
    /// is evaluated.
    Timeout { latency_ms: u32 },
    /// A network-level failure (DNS, connection refused, TLS), distinct from
    /// a response that merely carries an unexpected status code.
    Error { latency_ms: u32, message: String },
}

/// Diagnostic detail of a check result: the HTTP status when a response
/// completed, the first rule that failed when criteria were unmet, and the
/// transport error message when the probe itself failed.
#[derive(Debug)]
pub struct Detail {
    pub http_status: Option<u16>,
    pub failed_rule: Option<RuleKind>,
    pub message: Option<String>,
}

/// One record of one executed check. Append-only: never mutated after it is
/// written to the sink.
#[derive(Debug)]
pub struct CheckResult {
    pub subscription_id: u64,
    pub executed_at: u64,
    pub outcome: Outcome,
    pub latency_ms: u32,
    pub detail: Detail,
    /// Set when consecutive failures have exhausted the retry budget and the
    /// failure is surfaced as an alertable event.
    pub alert: bool,
}

} // verus!
