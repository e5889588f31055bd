//! Retrying failed requests: which errors are worth another attempt and how
//! many attempts a policy allows. Delays, which are fractional seconds, are
//! computed by the application layer.
use vstd::prelude::*;
use crate::errors::{SDKError, SDKErrorKind};

verus! {

/// Retries a policy allows by default.
pub fn default_max_retries() -> (r: u32)
    ensures
        r == 2,
{
    2
}

/// Whether delays are jittered by default.
pub fn default_jitter() -> (r: bool)
    ensures
        r,
{
    true
}

/// Whether an error is worth another attempt on its own account.
pub fn is_retryable_error(error: &SDKError) -> (r: bool)
    ensures
        r == error.retryable,
{
    error.retryable
}

/// Whether a policy retries an error: a retryable one, or a timeout when the
/// policy retries timeouts.
pub open spec fn policy_retries_spec(retry_timeouts: bool, retryable: bool, kind: SDKErrorKind) -> bool {
    retryable || (retry_timeouts && kind == SDKErrorKind::RequestTimeout)
}

/// Whether a policy retries an error.
pub fn policy_is_retryable_error(retry_timeouts: bool, error: &SDKError) -> (r: bool)
    ensures
        r == policy_retries_spec(retry_timeouts, error.retryable, error.kind),
{
    error.retryable || (retry_timeouts && error.kind == SDKErrorKind::RequestTimeout)
}

/// Whether a failed attempt is followed by another: the policy retries the
/// error and `attempt` (counted from zero) is below its limit.
pub fn should_retry(retry_timeouts: bool, max_retries: u32, error: &SDKError, attempt: u32) -> (r: bool)
    ensures
        r == (policy_retries_spec(retry_timeouts, error.retryable, error.kind) && attempt < max_retries),
{
    policy_is_retryable_error(retry_timeouts, error) && attempt < max_retries
}

/// A policy never makes more than `max_retries` further attempts: once
/// `attempt` reaches the limit, no error is retried.
pub proof fn lemma_retries_bounded(retry_timeouts: bool, max_retries: u32, retryable: bool, kind: SDKErrorKind, attempt: u32)
    requires
        attempt >= max_retries,
    ensures
        !(policy_retries_spec(retry_timeouts, retryable, kind) && attempt < max_retries),
{
}

/// A retryable error is retried while attempts remain, whether or not the
/// policy retries timeouts; a timeout is retried when the policy retries
/// timeouts; an error that is neither retryable nor a retried timeout is
/// never retried.
pub proof fn lemma_retryable_errors_are_retried(
    retry_timeouts: bool,
    max_retries: u32,
    retryable: bool,
    kind: SDKErrorKind,
    attempt: u32,
)
    ensures
        retryable && attempt < max_retries ==> policy_retries_spec(retry_timeouts, retryable, kind) && attempt
            < max_retries,
        retry_timeouts && kind == SDKErrorKind::RequestTimeout ==> policy_retries_spec(retry_timeouts, retryable, kind),
        !retryable && !(retry_timeouts && kind == SDKErrorKind::RequestTimeout) ==> !policy_retries_spec(
            retry_timeouts,
            retryable,
            kind,
        ),
{
}

} // verus!
