//! The record of one check: what came back from one target.

use vstd::prelude::*;
use crate::status::{canonical_reason, canonical_reason_of, decimal, is_up_code, is_up_status, status_text};

verus! {

/// The status text of a check whose request never completed.
pub open spec fn error_token() -> Seq<char> {
    seq!['E', 'R', 'R', 'O', 'R']
}

/// The result of checking one target.
#[derive(Debug, PartialEq, Eq)]
pub struct CheckOutcome {
    /// The target, as it was given.
    pub url: String,
    /// The numeric status as text, or `ERROR` when no response came.
    pub status: String,
    /// The reason phrase of the status, or a description of the failure.
    pub reason: String,
    /// Milliseconds from the start of the attempt to its response or failure.
    pub time_ms: u64,
    /// The body length that the server advertised, 0 when it gave none.
    pub size_bytes: u64,
    /// When the check completed, as UTC text.
    pub timestamp: String,
    /// Whether a response came with a code in [200, 400).
    pub success: bool,
}

impl CheckOutcome {
    /// What every outcome built here satisfies: a failure to get a response
    /// carries the error token, no size and no success; a response carries
    /// its code as text, and succeeds exactly when that code is up.
    pub open spec fn wf(&self) -> bool {
        ||| (self.status@ == error_token() && !self.success && self.size_bytes == 0)
        ||| (exists|code: u16|
            #![trigger decimal(code as nat)]
            self.status@ == decimal(code as nat) && self.success == is_up_code(code))
    }

    /// Whether this outcome records a transport failure (no response).
    pub open spec fn is_transport_failure(&self) -> bool {
        self.status@ == error_token()
    }
}

/// The outcome of a target that answered with `code`.
pub open spec fn is_response_outcome(
    o: CheckOutcome,
    url: Seq<char>,
    code: u16,
    reason: Seq<char>,
    elapsed_ms: u64,
    content_length: Option<u64>,
    timestamp: Seq<char>,
) -> bool {
    &&& o.url@ == url
    &&& o.status@ == decimal(code as nat)
    &&& o.reason@ == reason
    &&& o.time_ms == elapsed_ms
    &&& o.size_bytes == match content_length {
        Some(n) => n,
        None => 0u64,
    }
    &&& o.timestamp@ == timestamp
    &&& o.success == is_up_code(code)
}

/// The outcome of a target whose request failed before any response.
pub open spec fn is_failure_outcome(
    o: CheckOutcome,
    url: Seq<char>,
    message: Seq<char>,
    elapsed_ms: u64,
    timestamp: Seq<char>,
) -> bool {
    &&& o.url@ == url
    &&& o.status@ == error_token()
    &&& o.reason@ == message
    &&& o.time_ms == elapsed_ms
    &&& o.size_bytes == 0
    &&& o.timestamp@ == timestamp
    &&& !o.success
}

/// Builds the outcome of a response from its code, reason phrase, elapsed
/// time, advertised length (absent counts as 0) and completion time.
pub fn outcome_from_response(
    url: String,
    code: u16,
    reason: String,
    elapsed_ms: u64,
    content_length: Option<u64>,
    timestamp: String,
) -> (o: CheckOutcome)
    ensures
        is_response_outcome(o, url@, code, reason@, elapsed_ms, content_length, timestamp@),
        o.wf(),
{
    let size_bytes: u64 = match content_length {
        Some(n) => n,
        None => 0,
    };
    let o = CheckOutcome {
        url,
        status: status_text(code),
        reason,
        time_ms: elapsed_ms,
        size_bytes,
        timestamp,
        success: is_up_status(code),
    };
    assert(o.status@ == decimal(code as nat) && o.success == is_up_code(code));
    o
}

/// Builds the outcome of a response, with the canonical reason phrase of
/// its code.
pub fn record_response(
    url: String,
    code: u16,
    elapsed_ms: u64,
    content_length: Option<u64>,
    timestamp: String,
) -> (o: CheckOutcome)
    ensures
        is_response_outcome(
            o,
            url@,
            code,
            canonical_reason_of(code),
            elapsed_ms,
            content_length,
            timestamp@,
        ),
        o.wf(),
{
    let reason = canonical_reason(code);
    outcome_from_response(url, code, reason, elapsed_ms, content_length, timestamp)
}

/// Builds the outcome of a request that failed before any response: status
/// `ERROR`, the failure's description as reason, no size, no success. The
/// time spent up to the failure is kept.
pub fn outcome_from_failure(
    url: String,
    message: String,
    elapsed_ms: u64,
    timestamp: String,
) -> (o: CheckOutcome)
    ensures
        is_failure_outcome(o, url@, message@, elapsed_ms, timestamp@),
        o.wf(),
{
    let status = String::from_str("ERROR");
    proof {
        reveal_strlit("ERROR");
    }
    assert(status@ =~= error_token());
    CheckOutcome {
        url,
        status,
        reason: message,
        time_ms: elapsed_ms,
        size_bytes: 0,
        timestamp,
        success: false,
    }
}

} // verus!
