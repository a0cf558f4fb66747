//! The tagged envelopes exchanged with each connection: commands sent by a
//! client, and events sent back by the hub.

use vstd::prelude::*;

use crate::uid::Uid;

verus! {

/// Which output stream of a session a line of output came from.
#[derive(Debug, Clone, Copy, PartialEq, Eq, Structural)]
pub enum OutputStream {
    Stdout,
    Stderr,
}

/// A session's lifecycle state, as reported over the wire.
#[derive(Debug, Clone, Copy, PartialEq, Eq, Structural)]
pub enum SessionStatus {
    Idle,
    Running,
    Completed,
    Error,
    Cancelled,
}

/// Commands sent from a client to the hub.
#[derive(Debug, Clone, Copy, PartialEq, Eq, Structural)]
pub enum ClientMessage {
    /// Join a session's topic.
    Subscribe { session_id: Uid },
    /// Leave a session's topic.
    Unsubscribe { session_id: Uid },
    /// Ask for cancellation of a session's work.
    Cancel { session_id: Uid },
    /// Liveness check.
    Ping,
}

/// Events sent from the hub to a client.
#[derive(Debug, Clone, PartialEq, Eq)]
pub enum ServerMessage {
    /// Acknowledgement of a subscription.
    Subscribed { session_id: Uid },
    /// Acknowledgement of an unsubscription.
    Unsubscribed { session_id: Uid },
    /// A line of session output.
    Output { session_id: Uid, stream: OutputStream, content: String },
    /// A session lifecycle transition.
    Status { session_id: Uid, status: SessionStatus },
    /// A malformed frame or a failed operation; never fatal to the connection.
    Error { message: String },
    /// Answer to a ping.
    Pong,
}

impl ServerMessage {
    /// An owned copy of this event, equal to it field for field.
    pub fn duplicate(&self) -> (r: Self)
        ensures
            r == *self,
    {
        match self {
            ServerMessage::Subscribed { session_id } => ServerMessage::Subscribed {
                session_id: *session_id,
            },
            ServerMessage::Unsubscribed { session_id } => ServerMessage::Unsubscribed {
                session_id: *session_id,
            },
            ServerMessage::Output { session_id, stream, content } => ServerMessage::Output {
                session_id: *session_id,
                stream: *stream,
                content: content.clone(),
            },
            ServerMessage::Status { session_id, status } => ServerMessage::Status {
                session_id: *session_id,
                status: *status,
            },
            ServerMessage::Error { message } => ServerMessage::Error {
                message: message.clone(),
            },
            ServerMessage::Pong => ServerMessage::Pong,
        }
    }
}

impl core::convert::From<crate::models::SessionStatus> for SessionStatus {
    /// The wire form of a stored session status.
    fn from(status: crate::models::SessionStatus) -> Self {
        match status {
            crate::models::SessionStatus::Idle => SessionStatus::Idle,
            crate::models::SessionStatus::Running => SessionStatus::Running,
            crate::models::SessionStatus::Completed => SessionStatus::Completed,
            crate::models::SessionStatus::Error => SessionStatus::Error,
            crate::models::SessionStatus::Cancelled => SessionStatus::Cancelled,
        }
    }
}

impl vstd::std_specs::convert::FromSpecImpl<crate::models::SessionStatus> for SessionStatus {
    open spec fn obeys_from_spec() -> bool {
        true
    }

    open spec fn from_spec(status: crate::models::SessionStatus) -> Self {
        match status {
            crate::models::SessionStatus::Idle => SessionStatus::Idle,
            crate::models::SessionStatus::Running => SessionStatus::Running,
            crate::models::SessionStatus::Completed => SessionStatus::Completed,
            crate::models::SessionStatus::Error => SessionStatus::Error,
            crate::models::SessionStatus::Cancelled => SessionStatus::Cancelled,
        }
    }
}

impl core::convert::From<crate::models::OutputStream> for OutputStream {
    /// The wire form of a stored output stream.
    fn from(stream: crate::models::OutputStream) -> Self {
        match stream {
            crate::models::OutputStream::Stdout => OutputStream::Stdout,
            crate::models::OutputStream::Stderr => OutputStream::Stderr,
        }
    }
}

impl vstd::std_specs::convert::FromSpecImpl<crate::models::OutputStream> for OutputStream {
    open spec fn obeys_from_spec() -> bool {
        true
    }

    open spec fn from_spec(stream: crate::models::OutputStream) -> Self {
        match stream {
            crate::models::OutputStream::Stdout => OutputStream::Stdout,
            crate::models::OutputStream::Stderr => OutputStream::Stderr,
        }
    }
}

} // verus!
