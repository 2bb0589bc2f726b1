//! Command dispatch: resolving a command into a payload type and
//! payload, gating it behind the pre-execution hook, and handing it to
//! the submission client.

use vstd::prelude::*;
use crate::context::Context;
use crate::errors::ExpendError;
use crate::json::JsonValue;

verus! {

/// One submission the tool is asked to make. A command is constructed
/// once and consumed exactly once by `execute`. The time-period and
/// kind data of a per-diem command belong to the external calculator
/// and pass through untouched.
pub enum Command<T, K> {
    /// A payload given as-is, with its payload type; with a context,
    /// the context overlay is applied first.
    Payload(Option<Context>, String, JsonValue),
    /// A per-diem submission: the calculator builds the transaction
    /// list from the context, time period and kind.
    PerDiem(Context, T, K),
}

/// The external per-diem calculator: builds a transaction-list payload
/// from the context and the calculator's own time-period and kind data.
pub trait PerDiemBuilder<T, K> {
    /// The built payload, or a description of why it could not be
    /// built.
    fn build(&mut self, ctx: &Context, period: &T, kind: &K) -> Result<JsonValue, String>;
}

/// The external submission client, constructed elsewhere from the
/// endpoint and the user's credentials.
pub trait SubmissionClient {
    /// Submits the payload under the payload type; the service's
    /// response, or a description of the failure.
    fn post(&mut self, payload_type: &str, payload: &JsonValue) -> Result<JsonValue, String>;
}

/// The pre-execution gate: sees the resolved payload exactly once,
/// before any network call, and may reject it.
pub trait PreExecuteHook {
    /// Nothing to accept the payload, or a description of the
    /// rejection.
    fn check(&mut self, payload_type: &str, payload: &JsonValue) -> Result<(), String>;
}

/// Resolves the command into a payload type and payload — a plain
/// payload as-is, a context-bearing payload through the overlay, a
/// per-diem command through the calculator under the fixed payload type
/// `create` — then runs the hook and, only if it accepts, submits.
/// A calculator failure aborts before the hook runs; a hook rejection
/// aborts before any submission; the client's response is returned
/// verbatim.
pub fn execute<T, K, B: PerDiemBuilder<T, K>, C: SubmissionClient, H: PreExecuteHook>(
    client: &mut C,
    builder: &mut B,
    hook: &mut H,
    cmd: Command<T, K>,
) -> (r: Result<JsonValue, ExpendError>)
    ensures
        r matches Err(e) ==> (e matches ExpendError::PayloadConstruction { .. } || e matches
            ExpendError::PreExecutionHook { .. } || e matches ExpendError::Submission { .. }),
        cmd matches Command::Payload(_, _, _) ==> !(r matches Err(
            ExpendError::PayloadConstruction { .. },
        )),
{
    let (payload_type, payload) = match cmd {
        Command::Payload(None, pt, p) => (pt, p),
        Command::Payload(Some(ctx), pt, p) => (pt, ctx.user.apply_to_value(p)),
        Command::PerDiem(ctx, period, kind) => {
            let built = match builder.build(&ctx, &period, &kind) {
                Ok(v) => v,
                Err(detail) => {
                    return Err(ExpendError::PayloadConstruction { detail });
                },
            };
            ("create".to_owned(), built)
        },
    };
    match hook.check(payload_type.as_str(), &payload) {
        Ok(u) => u,
        Err(detail) => {
            return Err(ExpendError::PreExecutionHook { detail });
        },
    }
    match client.post(payload_type.as_str(), &payload) {
        Ok(response) => Ok(response),
        Err(detail) => Err(ExpendError::Submission { detail }),
    }
}

} // verus!
