//! Decision logic the event loop runs outside the renderer: the escape
//! cascade (dismiss an error, else dismiss the info message, else request
//! cancellation) and the submit gate (only idle sessions receive a message
//! directly; busy ones queue it).

use vstd::prelude::*;
use crate::text::{chars_of_str, string_of_chars};

verus! {

/// What pressing Escape does, in order of preference.
#[derive(Clone, Copy, Debug, PartialEq, Eq, Structural)]
pub enum EscapeOutcome {
    /// An error is showing: clear it, touch nothing else.
    DismissError,
    /// An info message is showing: clear it.
    DismissInfo,
    /// A session exists and is not idle: set the cancel flag and show the
    /// cancellation notice.
    RequestCancel,
    /// A session exists but sits idle: set the cancel flag and say nothing
    /// is running.
    NothingRunning,
    /// No session: nothing happens.
    NoSession,
}

/// The escape cascade: an error wins over an info message, which wins over
/// cancelling the current session; an idle session reports that nothing is
/// running.
pub open spec fn spec_escape_outcome(
    has_error: bool,
    has_info: bool,
    has_session: bool,
    is_idle: bool,
) -> EscapeOutcome {
    if has_error {
        EscapeOutcome::DismissError
    } else if has_info {
        EscapeOutcome::DismissInfo
    } else if !has_session {
        EscapeOutcome::NoSession
    } else if is_idle {
        EscapeOutcome::NothingRunning
    } else {
        EscapeOutcome::RequestCancel
    }
}

pub fn escape_outcome(has_error: bool, has_info: bool, has_session: bool, is_idle: bool) -> (r:
    EscapeOutcome)
    ensures
        r == spec_escape_outcome(has_error, has_info, has_session, is_idle),
{
    if has_error {
        EscapeOutcome::DismissError
    } else if has_info {
        EscapeOutcome::DismissInfo
    } else if !has_session {
        EscapeOutcome::NoSession
    } else if is_idle {
        EscapeOutcome::NothingRunning
    } else {
        EscapeOutcome::RequestCancel
    }
}

/// The info message shown after a cancellation request.
pub fn cancellation_requested_message() -> (r: String)
    ensures
        r@ == "Cancellation requested..."@,
{
    String::from_str("Cancellation requested...")
}

/// The info message shown when Escape finds an idle session.
pub fn nothing_running_message() -> (r: String)
    ensures
        r@ == "No agent is currently running."@,
{
    String::from_str("No agent is currently running.")
}

/// Whether a submitted message goes straight to the session (idle or no
/// recorded activity) or queues behind a busy one.
pub open spec fn spec_send_directly(activity_known: bool, is_idle: bool) -> bool {
    !activity_known || is_idle
}

pub fn send_directly(activity_known: bool, is_idle: bool) -> (r: bool)
    ensures
        r == spec_send_directly(activity_known, is_idle),
{
    !activity_known || is_idle
}

} // verus!
