//! Deadline-bounded invocation.
//!
//! An asynchronous operation is raced against an optional timer by the
//! caller's runtime; what this module owns is the decision: mapping the
//! outcome of that race to either the operation's value or a uniform
//! labeled error. A single invocation makes a single pending-to-resolved
//! transition; no retries happen at this layer.

use vstd::prelude::*;

verus! {

/// How the race between the wrapped operation and the timer resolved:
/// either the operation completed (successfully or with the underlying
/// failure reason), or the timer fired first and the operation was
/// abandoned.
pub enum RaceOutcome<T> {
    Completed(Result<T, String>),
    TimerFired,
}

/// Uniform failure report of a deadline-bounded invocation.
pub enum InvokeError {
    /// The bounded wait elapsed before the operation resolved.
    Timeout { label: String, timeout_millis: u64 },
    /// The operation itself failed; the original reason is preserved.
    OperationFailed { label: String, reason: String },
}

impl InvokeError {
    /// The uniform failure message: the label with the elapsed bound in
    /// milliseconds, or the label with the operation's own reason.
    pub fn describe(&self) -> (r: String)
        ensures
            self matches InvokeError::Timeout { label, timeout_millis } ==> r@
                == "timed out awaiting "@ + label@ + " after "@ + crate::text::decimal_digits(
                timeout_millis as nat,
            ) + "ms"@,
            self matches InvokeError::OperationFailed { label, reason } ==> r@ == label@
                + " failed: "@ + reason@,
    {
        match self {
            InvokeError::Timeout { label, timeout_millis } => {
                let mut r: String = "timed out awaiting ".to_owned();
                crate::text::append_str(&mut r, label.as_str());
                crate::text::append_str(&mut r, " after ");
                crate::text::push_decimal(&mut r, *timeout_millis);
                crate::text::append_str(&mut r, "ms");
                r
            },
            InvokeError::OperationFailed { label, reason } => {
                let mut r: String = label.clone();
                crate::text::append_str(&mut r, " failed: ");
                crate::text::append_str(&mut r, reason.as_str());
                r
            },
        }
    }
}

/// What settling an invocation must return for a given race outcome.
pub open spec fn settled_outcome<T>(
    outcome: RaceOutcome<T>,
    timeout_millis: Option<u64>,
    label: String,
) -> Result<T, InvokeError> {
    match outcome {
        RaceOutcome::Completed(Ok(value)) => Ok(value),
        RaceOutcome::Completed(Err(reason)) => Err(
            InvokeError::OperationFailed { label, reason },
        ),
        RaceOutcome::TimerFired => Err(
            InvokeError::Timeout { label, timeout_millis: timeout_millis->Some_0 },
        ),
    }
}

/// Settles a deadline-bounded invocation: the operation's value passes
/// through unchanged; its failure is re-labeled; a fired timer becomes a
/// timeout error carrying the label and the configured bound.
///
/// The timer can only fire when a bound was configured, so `TimerFired`
/// requires `timeout_millis` to be present.
pub fn settle_invocation<T>(
    outcome: RaceOutcome<T>,
    timeout_millis: Option<u64>,
    label: String,
) -> (r: Result<T, InvokeError>)
    requires
        outcome is TimerFired ==> timeout_millis is Some,
    ensures
        r == settled_outcome(outcome, timeout_millis, label),
{
    match outcome {
        RaceOutcome::Completed(result) => match result {
            Ok(value) => Ok(value),
            Err(reason) => Err(InvokeError::OperationFailed { label, reason }),
        },
        RaceOutcome::TimerFired => {
            let millis = match timeout_millis {
                Some(d) => d,
                None => vstd::pervasive::unreached(),
            };
            Err(InvokeError::Timeout { label, timeout_millis: millis })
        },
    }
}

/// Without a deadline the invocation is transparent: the operation's
/// success is returned unchanged, and its failure is returned with the
/// original reason preserved under the label — nothing else can happen.
pub proof fn lemma_no_deadline_transparent<T>(outcome: RaceOutcome<T>, label: String)
    requires
        outcome is Completed,
    ensures
        outcome->Completed_0 is Ok ==> settled_outcome(outcome, None, label) == Ok::<
            T,
            InvokeError,
        >(outcome->Completed_0->Ok_0),
        outcome->Completed_0 is Err ==> settled_outcome(outcome, None, label) == Err::<
            T,
            InvokeError,
        >(
            InvokeError::OperationFailed {
                label,
                reason: outcome->Completed_0->Err_0,
            },
        ),
{
}

} // verus!
