//! Whether, and after what delay, a request is sent again.

use crate::json::Json;
use crate::llm_error::LlmError;
use vstd::prelude::*;

verus! {

/// A request that is ready to be sent.
#[derive(Debug)]
pub struct PreparedRequest {
    pub url: String,
    pub body: Json,
    pub headers: Vec<(String, String)>,
}

/// How an attempt at a request failed.
#[derive(Debug)]
pub enum AttemptFailure {
    /// The server answered with a status that is no success.
    Status { status: u16, body: String },
    /// No answer came; whether the same request may succeed later.
    Transport { message: String, retryable: bool },
    /// No answer came in time.
    TimedOut,
}

/// The attempts at one request.
#[derive(Clone, Copy, Debug)]
pub struct Retries {
    /// How many attempts have failed and were repeated.
    pub attempt: u32,
    pub max_retries: u32,
    /// The delay before the next attempt, in milliseconds.
    pub delay_ms: u64,
    pub timeout_secs: u64,
}

/// Whether a failure is of the kind that may pass.
pub open spec fn may_pass(f: AttemptFailure) -> bool {
    match f {
        AttemptFailure::Status { status, .. } => status == 429 || status >= 500,
        AttemptFailure::Transport { retryable, .. } => retryable,
        AttemptFailure::TimedOut => true,
    }
}

/// Twice the delay, up to the largest number.
pub open spec fn doubled(ms: u64) -> u64 {
    if 2 * ms <= u64::MAX {
        (2 * ms) as u64
    } else {
        u64::MAX
    }
}

/// The error that a failure is reported as.
pub open spec fn reported(f: AttemptFailure, timeout_secs: u64) -> LlmError {
    match f {
        AttemptFailure::Status { status, body } => LlmError::Api { status, body },
        AttemptFailure::Transport { message, .. } => LlmError::Network(message),
        AttemptFailure::TimedOut => LlmError::Timeout(timeout_secs),
    }
}

impl Retries {
    /// The attempts at a request under a configuration.
    pub fn new(max_retries: u32, retry_base_delay_ms: u64, request_timeout_secs: u64) -> (r: Retries)
        ensures
            r == (Retries {
                attempt: 0,
                max_retries,
                delay_ms: retry_base_delay_ms,
                timeout_secs: request_timeout_secs,
            }),
    {
        Retries {
            attempt: 0,
            max_retries,
            delay_ms: retry_base_delay_ms,
            timeout_secs: request_timeout_secs,
        }
    }

    /// The attempts after one more that is repeated.
    pub open spec fn next(self) -> Retries {
        Retries { attempt: (self.attempt + 1) as u32, delay_ms: doubled(self.delay_ms), ..self }
    }

    /// After a failed attempt: how many milliseconds to wait before the next, or the error
    /// to report.
    pub fn after_failure(&mut self, f: AttemptFailure) -> (r: Result<u64, LlmError>)
        ensures
            match r {
                Ok(ms) => may_pass(f) && old(self).attempt < old(self).max_retries && ms
                    == old(self).delay_ms && *final(self) == old(self).next(),
                Err(e) => (!may_pass(f) || old(self).attempt >= old(self).max_retries) && e
                    == reported(f, old(self).timeout_secs) && *final(self) == *old(self),
            },
    {
        let passing = match &f {
            AttemptFailure::Status { status, .. } => *status == 429 || *status >= 500,
            AttemptFailure::Transport { retryable, .. } => *retryable,
            AttemptFailure::TimedOut => true,
        };
        if passing && self.attempt < self.max_retries {
            let wait: u64 = self.delay_ms;
            self.attempt = self.attempt + 1;
            self.delay_ms = if wait <= u64::MAX / 2 {
                2 * wait
            } else {
                u64::MAX
            };
            return Ok(wait);
        }
        Err(
            match f {
                AttemptFailure::Status { status, body } => LlmError::Api { status, body },
                AttemptFailure::Transport { message, .. } => LlmError::Network(message),
                AttemptFailure::TimedOut => LlmError::Timeout(self.timeout_secs),
            },
        )
    }
}

/// The attempts after `n` that were repeated.
pub open spec fn after_repeats(r: Retries, n: nat) -> Retries
    decreases n,
{
    if n == 0 {
        r
    } else {
        after_repeats(r, (n - 1) as nat).next()
    }
}

/// Two to the power of `n`.
pub open spec fn power_of_two(n: nat) -> int
    decreases n,
{
    if n == 0 {
        1
    } else {
        2 * power_of_two((n - 1) as nat)
    }
}

/// The delay doubles from one attempt to the next, and no request is repeated more often
/// than the configuration allows.
pub proof fn lemma_backoff_doubles(r: Retries, n: nat)
    requires
        r.attempt == 0,
        n <= r.max_retries,
    ensures
        after_repeats(r, n).attempt == n,
        after_repeats(r, n).max_retries == r.max_retries,
        r.delay_ms * power_of_two(n) <= u64::MAX ==> after_repeats(r, n).delay_ms == r.delay_ms
            * power_of_two(n),
    decreases n,
{
    if n == 0 {
        assert(r.delay_ms * 1 == r.delay_ms);
    } else {
        let m = (n - 1) as nat;
        lemma_backoff_doubles(r, m);
        let d = r.delay_ms as int;
        let p = power_of_two(m);
        assert(d * (2 * p) == 2 * (d * p)) by (nonlinear_arith);
        if d * power_of_two(n) <= u64::MAX {
            assert(0 <= d * p) by {
                lemma_power_is_positive(m);
                assert(0 <= d * p) by (nonlinear_arith)
                    requires
                        0 <= d,
                        0 < p,
                ;
            }
        }
    }
}

proof fn lemma_power_is_positive(n: nat)
    ensures
        power_of_two(n) > 0,
    decreases n,
{
    if n > 0 {
        lemma_power_is_positive((n - 1) as nat);
    }
}

} // verus!
