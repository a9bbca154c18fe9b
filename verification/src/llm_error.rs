//! What can go wrong with a request to the model.

use crate::text::{dec, dec_text, owned};
use vstd::prelude::*;

verus! {

/// An error of a request.
#[derive(Debug)]
pub enum LlmError {
    Network(String),
    /// No answer within so many seconds.
    Timeout(u64),
    Api { status: u16, body: String },
    Stream(String),
    /// The stream broke off after so many bytes of text.
    StreamInterrupted(usize, String),
    Other(String),
}

/// Whether a status says that the same request may succeed later.
pub open spec fn retryable_status(status: u16) -> bool {
    status == 429 || status >= 500
}

impl LlmError {
    pub open spec fn retryable(self) -> bool {
        match self {
            LlmError::Network(_) => true,
            LlmError::Timeout(_) => true,
            LlmError::Api { status, .. } => retryable_status(status),
            LlmError::Stream(_) => true,
            LlmError::StreamInterrupted(_, _) => false,
            LlmError::Other(_) => false,
        }
    }

    /// The error in words.
    pub open spec fn words(self) -> Seq<char> {
        match self {
            LlmError::Network(e) => "Network error: "@ + e@,
            LlmError::Timeout(n) => "Request timeout after "@ + dec(n as int) + " seconds"@,
            LlmError::Api { status, body } => "API error "@ + dec(status as int) + ": "@ + body@,
            LlmError::Stream(e) => "Stream error: "@ + e@,
            LlmError::StreamInterrupted(n, e) => "Stream interrupted: partial response ("@ + dec(
                n as int,
            ) + " chars), last error: "@ + e@,
            LlmError::Other(e) => "Other: "@ + e@,
        }
    }

    /// Whether the same request may succeed later.
    pub fn is_retryable(&self) -> (r: bool)
        ensures
            r == self.retryable(),
    {
        match self {
            LlmError::Network(_) => true,
            LlmError::Timeout(_) => true,
            LlmError::Api { status, .. } => *status == 429 || *status >= 500,
            LlmError::Stream(_) => true,
            LlmError::StreamInterrupted(_, _) => false,
            LlmError::Other(_) => false,
        }
    }

    /// The error in words.
    pub fn message(&self) -> (r: String)
        ensures
            r@ == self.words(),
    {
        match self {
            LlmError::Network(e) => {
                let mut m = owned("Network error: ");
                m.append(e.as_str());
                m
            },
            LlmError::Timeout(n) => {
                let mut m = owned("Request timeout after ");
                m.append(dec_text(*n).as_str());
                m.append(" seconds");
                m
            },
            LlmError::Api { status, body } => {
                let mut m = owned("API error ");
                m.append(dec_text(*status as u64).as_str());
                m.append(": ");
                m.append(body.as_str());
                m
            },
            LlmError::Stream(e) => {
                let mut m = owned("Stream error: ");
                m.append(e.as_str());
                m
            },
            LlmError::StreamInterrupted(n, e) => {
                let mut m = owned("Stream interrupted: partial response (");
                m.append(dec_text(*n as u64).as_str());
                m.append(" chars), last error: ");
                m.append(e.as_str());
                m
            },
            LlmError::Other(e) => {
                let mut m = owned("Other: ");
                m.append(e.as_str());
                m
            },
        }
    }
}

/// Whether a failed request may succeed later, by what is known of the failure: that it timed
/// out, that no connection came about, and the status, where one came back.
pub fn is_retryable_failure(timed_out: bool, no_connection: bool, status: Option<u16>) -> (r: bool)
    ensures
        r == (timed_out || no_connection || (status matches Some(s) && retryable_status(s))),
{
    if timed_out || no_connection {
        return true;
    }
    match status {
        Some(s) => s == 429 || s >= 500,
        None => false,
    }
}

} // verus!
