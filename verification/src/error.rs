//! Failures a command sender, a join or a leave can report.

use vstd::prelude::*;


verus! {

/// Why a command could not be carried out.
#[derive(Debug, PartialEq, Eq)]
pub enum CommandError {
    /// The command was attempted and failed; says how.
    SendError(String),
    /// The homeserver will never schedule delayed events; says what it answered.
    DelayedEventsNotSupported(String),
    /// The client refused to attempt the command at all; says why.
    ClientRejected(String),
}

impl Clone for CommandError {
    fn clone(&self) -> (copy: CommandError)
        ensures
            copy == *self,
    {
        match self {
            CommandError::SendError(text) => CommandError::SendError(text.clone()),
            CommandError::DelayedEventsNotSupported(text) => CommandError::DelayedEventsNotSupported(
                text.clone(),
            ),
            CommandError::ClientRejected(text) => CommandError::ClientRejected(text.clone()),
        }
    }
}

impl CommandError {
    /// An ordinary failure, described by `message`.
    pub fn from_message(message: String) -> (error: CommandError)
        ensures
            error == CommandError::SendError(message),
    {
        CommandError::SendError(message)
    }

    /// Whether the homeserver will never schedule delayed events, so asking again
    /// is pointless.
    pub fn is_delayed_events_unsupported(&self) -> (yes: bool)
        ensures
            yes == (self is DelayedEventsNotSupported),
    {
        match self {
            CommandError::DelayedEventsNotSupported(_) => true,
            _ => false,
        }
    }

    /// What went wrong, as one line of text.
    pub fn message(&self) -> (text: &str)
        ensures
            text@ == (match *self {
                CommandError::SendError(text) => text@,
                CommandError::DelayedEventsNotSupported(text) => text@,
                CommandError::ClientRejected(text) => text@,
            }),
    {
        match self {
            CommandError::SendError(text) => text.as_str(),
            CommandError::DelayedEventsNotSupported(text) => text.as_str(),
            CommandError::ClientRejected(text) => text.as_str(),
        }
    }
}

/// Why a session could not be joined.
#[derive(Debug, PartialEq, Eq)]
pub enum JoinError {
    /// A required parameter is missing; this says which.
    InvalidParams(&'static str),
    /// Publishing the membership failed.
    CommandError(CommandError),
}

/// Why a session could not be left.
#[derive(Debug, PartialEq, Eq)]
pub enum LeaveError {
    /// Publishing the leave failed.
    CommandError(CommandError),
}

} // verus!
