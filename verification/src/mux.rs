//! Per-connection protocol dispatch: one inbound frame becomes hub
//! operations and an ordered list of direct answers. Forwarded topic events
//! travel separately, through `ConnectionManager::recv_next`, so that the
//! caller can serialize direct answers and forwarded events into a single
//! outbound sequence.

use vstd::prelude::*;
use vstd::string::StringExecFns;

use crate::codec::{decode_client_message, spec_decode_client};
use crate::hub::{spec_broadcast, spec_subscribe, spec_unsubscribe, ConnectionManager};
use crate::messages::{ClientMessage, ServerMessage, SessionStatus};
use crate::uid::Uid;

verus! {

/// The text of the error envelope answering a malformed frame; one fixed
/// line, with no echo of the offending input.
pub open spec fn invalid_frame_message() -> Seq<char> {
    "Invalid message format"@
}

fn invalid_frame_text() -> (r: String)
    ensures
        r@ == invalid_frame_message(),
{
    String::from_str("Invalid message format")
}

/// Handles one inbound frame for one connection: a malformed frame is
/// answered with exactly one error envelope and changes nothing, so the
/// connection stays usable; a subscribe or unsubscribe updates the hub and
/// is acknowledged; a cancel is broadcast to the session's topic as a
/// cancelled status; a ping is answered with exactly one pong and has no
/// other effect.
pub fn handle_client_frame(hub: &mut ConnectionManager, connection_id: Uid, frame: &[u8]) -> (out:
    Vec<ServerMessage>)
    requires
        old(hub).inv(),
    ensures
        final(hub).inv(),
        match spec_decode_client(frame@) {
            Option::None => {
                &&& final(hub)@ == old(hub)@
                &&& out@.len() == 1
                &&& out@[0] matches ServerMessage::Error { message } && message@
                    == invalid_frame_message()
            },
            Option::Some(cmd) => match cmd {
                ClientMessage::Subscribe { session_id } => {
                    &&& final(hub)@ == spec_subscribe(
                        old(hub)@,
                        connection_id.value,
                        session_id.value,
                    )
                    &&& out@.len() == 1
                    &&& out@[0] == (ServerMessage::Subscribed { session_id })
                },
                ClientMessage::Unsubscribe { session_id } => {
                    &&& final(hub)@ == spec_unsubscribe(
                        old(hub)@,
                        connection_id.value,
                        session_id.value,
                    )
                    &&& out@.len() == 1
                    &&& out@[0] == (ServerMessage::Unsubscribed { session_id })
                },
                ClientMessage::Cancel { session_id } => {
                    &&& final(hub)@ == spec_broadcast(
                        old(hub)@,
                        session_id.value,
                        ServerMessage::Status { session_id, status: SessionStatus::Cancelled },
                    )
                    &&& out@.len() == 0
                },
                ClientMessage::Ping => {
                    &&& final(hub)@ == old(hub)@
                    &&& out@.len() == 1
                    &&& out@[0] == ServerMessage::Pong
                },
            },
        },
{
    let mut out: Vec<ServerMessage> = Vec::new();
    match decode_client_message(frame) {
        Option::None => {
            out.push(ServerMessage::Error { message: invalid_frame_text() });
        },
        Option::Some(ClientMessage::Subscribe { session_id }) => {
            hub.subscribe(connection_id, session_id);
            out.push(ServerMessage::Subscribed { session_id });
        },
        Option::Some(ClientMessage::Unsubscribe { session_id }) => {
            hub.unsubscribe(connection_id, session_id);
            out.push(ServerMessage::Unsubscribed { session_id });
        },
        Option::Some(ClientMessage::Cancel { session_id }) => {
            hub.broadcast(
                session_id,
                ServerMessage::Status { session_id, status: SessionStatus::Cancelled },
            );
        },
        Option::Some(ClientMessage::Ping) => {
            out.push(ServerMessage::Pong);
        },
    }
    out
}

/// Handles a transport close: the connection is unregistered, which closes
/// its handles and reclaims the sessions it alone subscribed to.
pub fn handle_transport_close(hub: &mut ConnectionManager, connection_id: Uid)
    requires
        old(hub).inv(),
    ensures
        final(hub).inv(),
        final(hub)@ == crate::hub::spec_unregister(old(hub)@, connection_id.value),
{
    hub.unregister_connection(connection_id);
}

} // verus!
