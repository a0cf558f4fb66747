use ralphtown::hub::ConnectionManager;
use ralphtown::messages::{OutputStream, ServerMessage, SessionStatus};
use ralphtown::mux::handle_client_frame;
use ralphtown::uid::Uid;

fn uid(value: u128) -> Uid {
    Uid { value }
}

#[test]
fn test_subscribe_and_broadcast() {
    let mut manager = ConnectionManager::new();
    let connection_id = uid(1);
    let session_id = uid(2);

    manager.register_connection(connection_id);
    manager.subscribe(connection_id, session_id);

    let msg = ServerMessage::Output {
        session_id,
        stream: OutputStream::Stdout,
        content: "Hello".to_string(),
    };

    manager.broadcast(session_id, msg.clone());

    let received = manager.recv_next(connection_id, session_id).unwrap();
    match received {
        ServerMessage::Output { content, .. } => assert_eq!(content, "Hello"),
        _ => panic!("Unexpected message type"),
    }
}

#[test]
fn test_unsubscribe() {
    let mut manager = ConnectionManager::new();
    let connection_id = uid(1);
    let session_id = uid(2);

    manager.register_connection(connection_id);
    manager.subscribe(connection_id, session_id);

    assert!(manager.has_subscribers(session_id));

    manager.unsubscribe(connection_id, session_id);
    // The handle is still held, so the topic still has its subscriber; the
    // cleanup happens when the connection unregisters.
    assert!(manager.has_subscribers(session_id));
}

#[test]
fn test_multiple_subscribers() {
    let mut manager = ConnectionManager::new();
    let conn1 = uid(1);
    let conn2 = uid(2);
    let session_id = uid(3);

    manager.register_connection(conn1);
    manager.register_connection(conn2);

    manager.subscribe(conn1, session_id);
    manager.subscribe(conn2, session_id);

    let msg = ServerMessage::Output {
        session_id,
        stream: OutputStream::Stdout,
        content: "Hello both".to_string(),
    };

    manager.broadcast(session_id, msg);

    // Both subscribers should get the message
    let r1 = manager.recv_next(conn1, session_id).unwrap();
    let r2 = manager.recv_next(conn2, session_id).unwrap();

    match (r1, r2) {
        (
            ServerMessage::Output { content: c1, .. },
            ServerMessage::Output { content: c2, .. },
        ) => {
            assert_eq!(c1, "Hello both");
            assert_eq!(c2, "Hello both");
        }
        _ => panic!("Unexpected message types"),
    }
}

#[test]
fn test_connection_cleanup() {
    let mut manager = ConnectionManager::new();
    let connection_id = uid(1);
    let session_id = uid(2);

    manager.register_connection(connection_id);
    manager.subscribe(connection_id, session_id);

    assert!(manager.has_subscribers(session_id));

    manager.unregister_connection(connection_id);

    // Channel should be cleaned up since no receivers
    assert!(!manager.has_subscribers(session_id));
}

fn output(session_id: Uid, stream: OutputStream, content: &str) -> ServerMessage {
    ServerMessage::Output { session_id, stream, content: content.to_string() }
}

#[test]
fn test_events_received_in_publish_order() {
    let mut manager = ConnectionManager::new();
    let conn = uid(1);
    let session = uid(2);
    manager.register_connection(conn);
    manager.subscribe(conn, session);

    for k in 0..5u32 {
        manager.publish(session, output(session, OutputStream::Stdout, &format!("line {}", k)));
    }
    for k in 0..5u32 {
        match manager.recv_next(conn, session).unwrap() {
            ServerMessage::Output { content, .. } => assert_eq!(content, format!("line {}", k)),
            _ => panic!("Unexpected message type"),
        }
    }
    assert_eq!(manager.recv_next(conn, session), None);
}

#[test]
fn test_publish_without_subscribers_is_a_no_op_success() {
    let mut manager = ConnectionManager::new();
    let session = uid(9);

    manager.publish(session, ServerMessage::Pong);
    assert!(!manager.has_subscribers(session));

    manager.remove_if_orphaned(session);
    assert!(!manager.has_subscribers(session));
    assert_eq!(manager.subscriber_count(session), 0);
}

#[test]
fn test_fan_out_one_copy_per_connection() {
    for n in [1u128, 2, 5] {
        let mut manager = ConnectionManager::new();
        let session = uid(100);
        for c in 1..=n {
            manager.register_connection(uid(c));
            manager.subscribe(uid(c), session);
        }
        manager.publish(session, output(session, OutputStream::Stdout, "once"));
        for c in 1..=n {
            match manager.recv_next(uid(c), session).unwrap() {
                ServerMessage::Output { content, .. } => assert_eq!(content, "once"),
                _ => panic!("Unexpected message type"),
            }
            assert_eq!(manager.recv_next(uid(c), session), None, "exactly one copy");
        }
    }
}

#[test]
fn test_unregister_clears_sole_subscriptions() {
    let mut manager = ConnectionManager::new();
    let conn = uid(1);
    let s1 = uid(2);
    let s2 = uid(3);
    manager.register_connection(conn);
    manager.subscribe(conn, s1);
    manager.subscribe(conn, s2);
    assert!(manager.has_subscribers(s1));
    assert!(manager.has_subscribers(s2));

    manager.unregister_connection(conn);
    assert!(!manager.has_subscribers(s1));
    assert!(!manager.has_subscribers(s2));
}

#[test]
fn test_unregister_leaves_other_connections_alone() {
    let mut manager = ConnectionManager::new();
    let going = uid(1);
    let staying = uid(2);
    let session = uid(3);
    manager.register_connection(going);
    manager.register_connection(staying);
    manager.subscribe(going, session);
    manager.subscribe(staying, session);

    manager.unregister_connection(going);
    assert!(manager.has_subscribers(session));
    assert_eq!(manager.subscriber_count(session), 1);

    manager.publish(session, output(session, OutputStream::Stdout, "still here"));
    match manager.recv_next(staying, session).unwrap() {
        ServerMessage::Output { content, .. } => assert_eq!(content, "still here"),
        _ => panic!("Unexpected message type"),
    }
}

#[test]
fn test_double_subscribe_delivers_once() {
    let mut manager = ConnectionManager::new();
    let conn = uid(1);
    let session = uid(2);
    manager.register_connection(conn);
    manager.subscribe(conn, session);
    manager.subscribe(conn, session);

    manager.publish(session, output(session, OutputStream::Stdout, "solo"));
    assert!(manager.recv_next(conn, session).is_some());
    assert_eq!(manager.recv_next(conn, session), None);
}

#[test]
fn test_lagging_subscriber_skips_oldest() {
    let mut manager = ConnectionManager::new();
    let conn = uid(1);
    let session = uid(2);
    manager.register_connection(conn);
    manager.subscribe(conn, session);

    // One event more than the buffer holds: the first is dropped.
    for k in 0..257u32 {
        manager.publish(session, output(session, OutputStream::Stdout, &format!("{}", k)));
    }
    match manager.recv_next(conn, session).unwrap() {
        ServerMessage::Output { content, .. } => assert_eq!(content, "1"),
        _ => panic!("Unexpected message type"),
    }
    let mut received = 1;
    while manager.recv_next(conn, session).is_some() {
        received += 1;
    }
    assert_eq!(received, 256);
}

#[test]
fn test_broadcast_without_topic_creates_none() {
    let mut manager = ConnectionManager::new();
    let session = uid(5);
    manager.broadcast(session, ServerMessage::Pong);
    assert_eq!(manager.subscriber_count(session), 0);
    let conn = uid(1);
    manager.register_connection(conn);
    manager.subscribe(conn, session);
    // Nothing from before the subscription is delivered.
    assert_eq!(manager.recv_next(conn, session), None);
}

#[test]
fn test_malformed_frame_yields_one_error_and_connection_stays_usable() {
    let mut manager = ConnectionManager::new();
    let conn = uid(1);
    manager.register_connection(conn);

    let out = handle_client_frame(&mut manager, conn, b"this is not a frame");
    assert_eq!(out.len(), 1);
    match &out[0] {
        ServerMessage::Error { message } => assert_eq!(message, "Invalid message format"),
        _ => panic!("Unexpected message type"),
    }

    // The same connection still works: a valid command is handled normally.
    let out = handle_client_frame(&mut manager, conn, b"{\"type\":\"ping\"}");
    assert_eq!(out, vec![ServerMessage::Pong]);
}

#[test]
fn test_subscribe_frame_acknowledged_and_output_forwarded() {
    let mut manager = ConnectionManager::new();
    let a = uid(1);
    let session = uid(0x5);
    manager.register_connection(a);

    let frame = b"{\"type\":\"subscribe\",\"session_id\":\"00000000-0000-0000-0000-000000000005\"}";
    let out = handle_client_frame(&mut manager, a, frame);
    assert_eq!(out, vec![ServerMessage::Subscribed { session_id: session }]);

    // Another party publishes a line; the subscriber receives that exact envelope.
    let msg = output(session, OutputStream::Stdout, "hello");
    manager.publish(session, msg.clone());
    assert_eq!(manager.recv_next(a, session), Some(msg));
}

#[test]
fn test_two_subscribers_both_receive_error_line() {
    let mut manager = ConnectionManager::new();
    let a = uid(1);
    let b = uid(2);
    let session = uid(3);
    manager.register_connection(a);
    manager.register_connection(b);
    manager.subscribe(a, session);
    manager.subscribe(b, session);

    let msg = output(session, OutputStream::Stderr, "boom");
    manager.publish(session, msg.clone());
    assert_eq!(manager.recv_next(a, session), Some(msg.clone()));
    assert_eq!(manager.recv_next(b, session), Some(msg));
}

#[test]
fn test_ping_frame_answers_pong_and_nothing_else() {
    let mut manager = ConnectionManager::new();
    let conn = uid(1);
    let session = uid(2);
    manager.register_connection(conn);
    manager.subscribe(conn, session);

    let out = handle_client_frame(&mut manager, conn, b"{\"type\":\"ping\"}");
    assert_eq!(out, vec![ServerMessage::Pong]);
    // No side effect: the subscription state is untouched and nothing was
    // published.
    assert!(manager.has_subscribers(session));
    assert_eq!(manager.recv_next(conn, session), None);
}

#[test]
fn test_unsubscribe_frame_acknowledged() {
    let mut manager = ConnectionManager::new();
    let conn = uid(1);
    let session = uid(0x7);
    manager.register_connection(conn);
    manager.subscribe(conn, session);

    let frame =
        b"{\"type\":\"unsubscribe\",\"session_id\":\"00000000-0000-0000-0000-000000000007\"}";
    let out = handle_client_frame(&mut manager, conn, frame);
    assert_eq!(out, vec![ServerMessage::Unsubscribed { session_id: session }]);
}

#[test]
fn test_cancel_frame_broadcasts_cancelled_status() {
    let mut manager = ConnectionManager::new();
    let a = uid(1);
    let b = uid(2);
    let session = uid(0x9);
    manager.register_connection(a);
    manager.register_connection(b);
    manager.subscribe(a, session);

    let frame = b"{\"type\":\"cancel\",\"session_id\":\"00000000-0000-0000-0000-000000000009\"}";
    let out = handle_client_frame(&mut manager, b, frame);
    assert_eq!(out, Vec::<ServerMessage>::new());
    assert_eq!(
        manager.recv_next(a, session),
        Some(ServerMessage::Status { session_id: session, status: SessionStatus::Cancelled })
    );
}

#[test]
fn test_register_twice_resets_record() {
    let mut manager = ConnectionManager::new();
    let conn = uid(1);
    let session = uid(2);
    manager.register_connection(conn);
    manager.subscribe(conn, session);
    manager.register_connection(conn);
    // The record was reset; unregistering now reclaims nothing, and the
    // old cursor still stands until the handle set is rebuilt.
    manager.unregister_connection(conn);
    assert!(manager.has_subscribers(session));
}
