//! The persisted vocabulary of the store: session status, message role and
//! output stream names, with their exact textual forms as read and written
//! by the storage layer.

use vstd::prelude::*;
use vstd::string::StringExecFns;

use crate::text::str_eq;

verus! {

/// A session's lifecycle state as the store records it.
#[derive(Debug, Clone, Copy, PartialEq, Eq, Structural)]
pub enum SessionStatus {
    Idle,
    Running,
    Completed,
    Error,
    Cancelled,
}

/// The exact text each session status is stored as.
pub open spec fn status_text(v: SessionStatus) -> Seq<char> {
    match v {
        SessionStatus::Idle => "idle"@,
        SessionStatus::Running => "running"@,
        SessionStatus::Completed => "completed"@,
        SessionStatus::Error => "error"@,
        SessionStatus::Cancelled => "cancelled"@,
    }
}

impl SessionStatus {
    /// The text this status is stored as.
    pub fn as_str(&self) -> (r: &'static str)
        ensures
            r@ == status_text(*self),
    {
        match self {
            SessionStatus::Idle => "idle",
            SessionStatus::Running => "running",
            SessionStatus::Completed => "completed",
            SessionStatus::Error => "error",
            SessionStatus::Cancelled => "cancelled",
        }
    }

    /// Reads a status back from its stored text; exactly the five stored
    /// forms are accepted, anything else is reported with the offending
    /// text.
    pub fn from_str(s: &str) -> (r: Result<Self, String>)
        ensures
            r is Ok <==> (s@ == "idle"@ || s@ == "running"@ || s@ == "completed"@ || s@
                == "error"@ || s@ == "cancelled"@),
            s@ == "idle"@ ==> r == Ok::<SessionStatus, String>(SessionStatus::Idle),
            s@ == "running"@ ==> r == Ok::<SessionStatus, String>(SessionStatus::Running),
            s@ == "completed"@ ==> r == Ok::<SessionStatus, String>(SessionStatus::Completed),
            s@ == "error"@ ==> r == Ok::<SessionStatus, String>(SessionStatus::Error),
            s@ == "cancelled"@ ==> r == Ok::<SessionStatus, String>(SessionStatus::Cancelled),
            r matches Err(e) ==> e@ == "invalid session status: '"@ + s@ + "'"@,
    {
        proof {
            reveal_strlit("idle");
            reveal_strlit("running");
            reveal_strlit("completed");
            reveal_strlit("error");
            reveal_strlit("cancelled");
            assert("idle"@ != "running"@) by {
                assert("idle"@.len() != "running"@.len());
            }
            assert("idle"@ != "completed"@) by {
                assert("idle"@.len() != "completed"@.len());
            }
            assert("idle"@ != "error"@) by {
                assert("idle"@.len() != "error"@.len());
            }
            assert("idle"@ != "cancelled"@) by {
                assert("idle"@.len() != "cancelled"@.len());
            }
            assert("running"@ != "completed"@) by {
                assert("running"@.len() != "completed"@.len());
            }
            assert("running"@ != "error"@) by {
                assert("running"@.len() != "error"@.len());
            }
            assert("running"@ != "cancelled"@) by {
                assert("running"@.len() != "cancelled"@.len());
            }
            assert("completed"@ != "error"@) by {
                assert("completed"@.len() != "error"@.len());
            }
            assert("completed"@ != "cancelled"@) by {
                assert("completed"@[1] != "cancelled"@[1]);
            }
            assert("error"@ != "cancelled"@) by {
                assert("error"@.len() != "cancelled"@.len());
            }
        }
        if str_eq(s, "idle") {
            Ok(SessionStatus::Idle)
        } else if str_eq(s, "running") {
            Ok(SessionStatus::Running)
        } else if str_eq(s, "completed") {
            Ok(SessionStatus::Completed)
        } else if str_eq(s, "error") {
            Ok(SessionStatus::Error)
        } else if str_eq(s, "cancelled") {
            Ok(SessionStatus::Cancelled)
        } else {
            Err(String::from_str("invalid session status: '").concat(s).concat("'"))
        }
    }
}

/// Who a chat message came from, as the store records it.
#[derive(Debug, Clone, Copy, PartialEq, Eq, Structural)]
pub enum MessageRole {
    User,
    Assistant,
    System,
}

/// The exact text each message role is stored as.
pub open spec fn role_text(v: MessageRole) -> Seq<char> {
    match v {
        MessageRole::User => "user"@,
        MessageRole::Assistant => "assistant"@,
        MessageRole::System => "system"@,
    }
}

impl MessageRole {
    /// The text this role is stored as.
    pub fn as_str(&self) -> (r: &'static str)
        ensures
            r@ == role_text(*self),
    {
        match self {
            MessageRole::User => "user",
            MessageRole::Assistant => "assistant",
            MessageRole::System => "system",
        }
    }

    /// Reads a role back from its stored text; exactly the three stored
    /// forms are accepted.
    pub fn from_str(s: &str) -> (r: Result<Self, String>)
        ensures
            r is Ok <==> (s@ == "user"@ || s@ == "assistant"@ || s@ == "system"@),
            s@ == "user"@ ==> r == Ok::<MessageRole, String>(MessageRole::User),
            s@ == "assistant"@ ==> r == Ok::<MessageRole, String>(MessageRole::Assistant),
            s@ == "system"@ ==> r == Ok::<MessageRole, String>(MessageRole::System),
            r matches Err(e) ==> e@ == "invalid message role: '"@ + s@ + "'"@,
    {
        proof {
            reveal_strlit("user");
            reveal_strlit("assistant");
            reveal_strlit("system");
            assert("user"@ != "assistant"@) by {
                assert("user"@.len() != "assistant"@.len());
            }
            assert("user"@ != "system"@) by {
                assert("user"@.len() != "system"@.len());
            }
            assert("assistant"@ != "system"@) by {
                assert("assistant"@.len() != "system"@.len());
            }
        }
        if str_eq(s, "user") {
            Ok(MessageRole::User)
        } else if str_eq(s, "assistant") {
            Ok(MessageRole::Assistant)
        } else if str_eq(s, "system") {
            Ok(MessageRole::System)
        } else {
            Err(String::from_str("invalid message role: '").concat(s).concat("'"))
        }
    }
}

/// Which output stream a stored line came from.
#[derive(Debug, Clone, Copy, PartialEq, Eq, Structural)]
pub enum OutputStream {
    Stdout,
    Stderr,
}

/// The exact text each output stream is stored as.
pub open spec fn stream_text(v: OutputStream) -> Seq<char> {
    match v {
        OutputStream::Stdout => "stdout"@,
        OutputStream::Stderr => "stderr"@,
    }
}

impl OutputStream {
    /// The text this stream is stored as.
    pub fn as_str(&self) -> (r: &'static str)
        ensures
            r@ == stream_text(*self),
    {
        match self {
            OutputStream::Stdout => "stdout",
            OutputStream::Stderr => "stderr",
        }
    }

    /// Reads a stream back from its stored text; exactly the two stored
    /// forms are accepted.
    pub fn from_str(s: &str) -> (r: Result<Self, String>)
        ensures
            r is Ok <==> (s@ == "stdout"@ || s@ == "stderr"@),
            s@ == "stdout"@ ==> r == Ok::<OutputStream, String>(OutputStream::Stdout),
            s@ == "stderr"@ ==> r == Ok::<OutputStream, String>(OutputStream::Stderr),
            r matches Err(e) ==> e@ == "invalid output stream: '"@ + s@ + "'"@,
    {
        proof {
            reveal_strlit("stdout");
            reveal_strlit("stderr");
            assert("stdout"@ != "stderr"@) by {
                assert("stdout"@[3] != "stderr"@[3]);
            }
        }
        if str_eq(s, "stdout") {
            Ok(OutputStream::Stdout)
        } else if str_eq(s, "stderr") {
            Ok(OutputStream::Stderr)
        } else {
            Err(String::from_str("invalid output stream: '").concat(s).concat("'"))
        }
    }
}

} // verus!
