//! How a prompt session ends, and what the process reports for it.

use vstd::prelude::*;
use vstd::string::StringExecFns;

verus! {

/// The process status of a run that sent something and did not wait.
pub const SUCCESS_STATUS: u8 = 0;

/// The process status of every failure, an expired prompt included. It is
/// no option index: a selected option is reported by its index only while
/// that index is below this value.
pub const FAILURE_STATUS: u8 = 255;

/// The terminal result of a session that met no error.
#[derive(Clone, Copy, Debug, PartialEq, Eq, Structural)]
pub enum SessionOutcome {
    /// A control was selected: the 0-based index of its option.
    Selected(usize),
    /// No control was selected before the deadline.
    TimedOut,
}

/// The calls a session has made for it.
#[derive(Clone, Copy, Debug, PartialEq, Eq, Structural)]
pub enum Operation {
    /// The poll that clears the queue before the prompt is sent.
    Drain,
    /// Sending the prompt.
    Publish,
    /// The long poll for a response.
    Await,
    /// The edit that marks the prompt as pressed or expired.
    Edit,
    /// Confirming the response.
    Acknowledge,
}

/// Why a session ended without an outcome.
#[derive(Clone, Copy, Debug, PartialEq, Eq, Structural)]
pub enum SessionError {
    /// The named call failed, and not by a connection timeout of the long
    /// poll.
    Transport(Operation),
    /// A response arrived whose payload is no index of an option.
    ProtocolViolation,
}

impl SessionError {
    /// The text of the report for this error.
    pub open spec fn message(self) -> Seq<char> {
        match self {
            SessionError::Transport(operation) => match operation {
                Operation::Drain => "Failed to get updates to clear queue in advance"@,
                Operation::Publish => "Failed to send message"@,
                Operation::Await => "Failed to get updates"@,
                Operation::Edit => "Failed to edit message after press"@,
                Operation::Acknowledge => "Failed to acknowledge button press"@,
            },
            SessionError::ProtocolViolation => "Button press carried no valid option index"@,
        }
    }

    /// A one-line report that names the call that failed.
    pub fn describe(&self) -> (text: String)
        ensures
            text@ == self.message(),
    {
        let text = match self {
            SessionError::Transport(operation) => match operation {
                Operation::Drain => "Failed to get updates to clear queue in advance",
                Operation::Publish => "Failed to send message",
                Operation::Await => "Failed to get updates",
                Operation::Edit => "Failed to edit message after press",
                Operation::Acknowledge => "Failed to acknowledge button press",
            },
            SessionError::ProtocolViolation => "Button press carried no valid option index",
        };
        String::from_str(text)
    }
}

/// The process status for the end of a session.
pub open spec fn status_of(end: Result<SessionOutcome, SessionError>) -> u8 {
    match end {
        Ok(SessionOutcome::Selected(index)) => if index < FAILURE_STATUS {
            index as u8
        } else {
            FAILURE_STATUS
        },
        _ => FAILURE_STATUS,
    }
}

/// The process status for the end of a session: the index of the selected
/// option, or `FAILURE_STATUS` when the prompt expired, the session failed,
/// or the index cannot be told apart from a failure.
pub fn wait_status(end: &Result<SessionOutcome, SessionError>) -> (status: u8)
    ensures
        status == status_of(*end),
        status == FAILURE_STATUS <==> !(*end matches Ok(SessionOutcome::Selected(index)) && index
            < FAILURE_STATUS),
{
    match end {
        Ok(SessionOutcome::Selected(index)) => {
            if *index < 255 {
                *index as u8
            } else {
                FAILURE_STATUS
            }
        },
        _ => FAILURE_STATUS,
    }
}

} // verus!
