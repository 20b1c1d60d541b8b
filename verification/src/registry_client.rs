//! The decisions of the measurement registry client: the request URLs, the
//! retry policy, and what each HTTP status means. The requests themselves
//! are made by the caller.

use vstd::prelude::*;
use vstd::string::*;
use crate::errors::MeasurementRegistryError;

verus! {

/// Default number of retries after the first attempt.
pub const DEFAULT_RETRIES: u32 = 3;
/// Default request timeout, in seconds.
pub const DEFAULT_TIMEOUT_SECS: u64 = 30;
/// Delay before the first retry, in milliseconds; it doubles on each retry.
pub const RETRY_BASE_DELAY_MS: u64 = 500;

/// `{base}/measurements/{namespace}/{hash}`.
pub fn measurement_url(base_url: &str, namespace: &str, measurement_hash: &str) -> (s: String)
    ensures
        s@ == base_url@ + "/measurements/"@ + namespace@ + "/"@ + measurement_hash@,
{
    let mut s = String::from_str(base_url);
    s.append("/measurements/");
    s.append(namespace);
    s.append("/");
    s.append(measurement_hash);
    s
}

/// `{base}/measurements/{namespace}`.
pub fn measurements_url(base_url: &str, namespace: &str) -> (s: String)
    ensures
        s@ == base_url@ + "/measurements/"@ + namespace@,
{
    let mut s = String::from_str(base_url);
    s.append("/measurements/");
    s.append(namespace);
    s
}

/// `{base}/nodes?namespace={namespace}`.
pub fn nodes_url(base_url: &str, namespace: &str) -> (s: String)
    ensures
        s@ == base_url@ + "/nodes?namespace="@ + namespace@,
{
    let mut s = String::from_str(base_url);
    s.append("/nodes?namespace=");
    s.append(namespace);
    s
}

/// `2^e`, saturating at `u32::MAX`.
pub open spec fn pow2_sat(e: nat) -> nat
    decreases e,
{
    if e == 0 {
        1
    } else {
        let p = 2 * pow2_sat((e - 1) as nat);
        if p > u32::MAX {
            u32::MAX as nat
        } else {
            p
        }
    }
}

fn pow2_saturating(e: u32) -> (r: u32)
    ensures
        r == pow2_sat(e as nat),
{
    let mut r: u32 = 1;
    let mut i: u32 = 0;
    while i < e
        invariant
            i <= e,
            r == pow2_sat(i as nat),
        decreases e - i,
    {
        r = if r > u32::MAX / 2 { u32::MAX } else { r * 2 };
        i = i + 1;
    }
    r
}

/// The delay before retry number `attempt` (1 for the first retry), in
/// milliseconds: 500 ms doubled for each earlier retry, the factor
/// saturating at `u32::MAX`.
pub fn retry_delay_ms(attempt: u32) -> (d: u64)
    requires
        attempt >= 1,
    ensures
        d == RETRY_BASE_DELAY_MS * pow2_sat((attempt - 1) as nat),
{
    let f = pow2_saturating(attempt - 1);
    RETRY_BASE_DELAY_MS * (f as u64)
}

/// What one request attempt gave.
#[derive(Debug, Clone)]
pub enum AttemptOutcome {
    /// An HTTP response with this status.
    Response { status: u16 },
    /// The connection failed (the error's text).
    ConnectError(String),
    /// The request timed out (the error's text).
    TimeoutError(String),
    /// Any other request error (the error's text).
    OtherError(String),
}

/// What to do after an attempt.
#[derive(Debug, Clone)]
pub enum RetryAction {
    /// Hand the response to the caller.
    Accept,
    /// Try again; `last_error` is reported if no attempt succeeds.
    Retry { last_error: MeasurementRegistryError },
    /// Give up with this error.
    Fail(MeasurementRegistryError),
}

/// The retry policy for attempt `attempt` of `0..=max_retries`: a server
/// error (5xx) is retried while attempts remain, any other response is
/// accepted; a failed connection or a timeout is retried while attempts
/// remain and otherwise reported; any other request error ends the request.
pub fn next_action(attempt: u32, max_retries: u32, outcome: AttemptOutcome) -> (a: RetryAction)
    ensures
        match outcome {
            AttemptOutcome::Response { status } => if 500 <= status <= 599 && attempt < max_retries {
                a matches RetryAction::Retry { last_error: MeasurementRegistryError::RegistryError { status: s, message: m } }
                    && s == status && m@ == "Server error"@
            } else {
                a is Accept
            },
            AttemptOutcome::ConnectError(t) => if attempt < max_retries {
                a == RetryAction::Retry { last_error: MeasurementRegistryError::ConnectionFailed(t) }
            } else {
                a == RetryAction::Fail(MeasurementRegistryError::ConnectionFailed(t))
            },
            AttemptOutcome::TimeoutError(t) => if attempt < max_retries {
                a == RetryAction::Retry { last_error: MeasurementRegistryError::Timeout(t) }
            } else {
                a == RetryAction::Fail(MeasurementRegistryError::Timeout(t))
            },
            AttemptOutcome::OtherError(t) => a == RetryAction::Fail(MeasurementRegistryError::ParseError(t)),
        },
{
    match outcome {
        AttemptOutcome::Response { status } => {
            if 500 <= status && status <= 599 && attempt < max_retries {
                RetryAction::Retry {
                    last_error: MeasurementRegistryError::RegistryError { status, message: String::from_str("Server error") },
                }
            } else {
                RetryAction::Accept
            }
        },
        AttemptOutcome::ConnectError(t) => {
            if attempt < max_retries {
                RetryAction::Retry { last_error: MeasurementRegistryError::ConnectionFailed(t) }
            } else {
                RetryAction::Fail(MeasurementRegistryError::ConnectionFailed(t))
            }
        },
        AttemptOutcome::TimeoutError(t) => {
            if attempt < max_retries {
                RetryAction::Retry { last_error: MeasurementRegistryError::Timeout(t) }
            } else {
                RetryAction::Fail(MeasurementRegistryError::Timeout(t))
            }
        },
        AttemptOutcome::OtherError(t) => RetryAction::Fail(MeasurementRegistryError::ParseError(t)),
    }
}

/// How the registry answered a measurement lookup.
pub fn measurement_status_verdict(status: u16, body: String) -> (r: Result<bool, MeasurementRegistryError>)
    ensures
        200 <= status <= 299 ==> r == Ok::<bool, MeasurementRegistryError>(true),
        status == 404 ==> r == Ok::<bool, MeasurementRegistryError>(false),
        !(200 <= status <= 299) && status != 404 ==> r == Err::<bool, MeasurementRegistryError>(
            MeasurementRegistryError::RegistryError { status, message: body },
        ),
{
    if 200 <= status && status <= 299 {
        Ok(true)
    } else if status == 404 {
        Ok(false)
    } else {
        Err(MeasurementRegistryError::RegistryError { status, message: body })
    }
}

/// What a node listing answer means: `Some(true)` to read the listing,
/// `Some(false)` for an empty listing (404), or the error.
pub fn nodes_status_verdict(status: u16, body: String) -> (r: Result<bool, MeasurementRegistryError>)
    ensures
        200 <= status <= 299 ==> r == Ok::<bool, MeasurementRegistryError>(true),
        status == 404 ==> r == Ok::<bool, MeasurementRegistryError>(false),
        !(200 <= status <= 299) && status != 404 ==> r == Err::<bool, MeasurementRegistryError>(
            MeasurementRegistryError::RegistryError { status, message: body },
        ),
{
    measurement_status_verdict(status, body)
}

} // verus!
