//! What can go wrong in a session.

use crate::text::joined;
use vstd::prelude::*;
use vstd::string::*;

verus! {

/// An error of a recognition session.
#[derive(Debug, Clone, PartialEq, Eq)]
pub enum AsrError {
    /// There is no connection, or none could be opened.
    Connection(String),
    /// The exchange over an open connection failed.
    Protocol(String),
}

/// What an `AsrError` says.
pub enum ErrorView {
    Connection(Seq<char>),
    Protocol(Seq<char>),
}

impl View for AsrError {
    type V = ErrorView;

    open spec fn view(&self) -> ErrorView {
        match self {
            AsrError::Connection(message) => ErrorView::Connection(message@),
            AsrError::Protocol(message) => ErrorView::Protocol(message@),
        }
    }
}

/// A piece of work on the network that can fail.
#[derive(Debug, Clone, Copy, PartialEq, Eq)]
pub enum NetworkStep {
    /// Opening the connection.
    Connect,
    /// Sending the configuration message.
    SendConfig,
    /// Sending a frame of audio.
    SendAudio,
    /// Sending the request to finalize.
    SendFinalize,
    /// Sending the end-of-audio mark.
    SendEndOfAudio,
}

/// The error for a step that failed with the message `detail`.
pub open spec fn step_error(step: NetworkStep, detail: Seq<char>) -> ErrorView {
    match step {
        NetworkStep::Connect => ErrorView::Connection(detail),
        NetworkStep::SendConfig => ErrorView::Protocol("send config: "@ + detail),
        NetworkStep::SendAudio => ErrorView::Protocol("send audio: "@ + detail),
        NetworkStep::SendFinalize => ErrorView::Protocol("send finalize: "@ + detail),
        NetworkStep::SendEndOfAudio => ErrorView::Protocol("send end-of-audio: "@ + detail),
    }
}

impl AsrError {
    /// The error for a step that failed with the message `detail`.
    pub fn in_step(step: NetworkStep, detail: &str) -> (r: AsrError)
        ensures
            r@ == step_error(step, detail@),
    {
        match step {
            NetworkStep::Connect => AsrError::Connection(detail.to_owned()),
            NetworkStep::SendConfig => AsrError::Protocol(joined("send config: ", detail)),
            NetworkStep::SendAudio => AsrError::Protocol(joined("send audio: ", detail)),
            NetworkStep::SendFinalize => AsrError::Protocol(joined("send finalize: ", detail)),
            NetworkStep::SendEndOfAudio => AsrError::Protocol(
                joined("send end-of-audio: ", detail),
            ),
        }
    }

    /// The error for a connection that took longer to open than it may.
    pub fn timed_out() -> (r: AsrError)
        ensures
            r@ == ErrorView::Connection("connection timed out"@),
    {
        AsrError::Connection("connection timed out".to_owned())
    }
}

} // verus!
