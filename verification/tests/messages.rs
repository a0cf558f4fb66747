use ralphtown::codec::{decode_client_message, encode_client_message, encode_server_message};
use ralphtown::messages::{ClientMessage, OutputStream, ServerMessage, SessionStatus};
use ralphtown::uid::Uid;

fn nil() -> Uid {
    Uid { value: 0 }
}

fn frame_text(bytes: Vec<u8>) -> String {
    String::from_utf8(bytes).expect("frames are valid text")
}

#[test]
fn test_client_message_serialize() {
    let msg = ClientMessage::Subscribe { session_id: nil() };
    let json = frame_text(encode_client_message(&msg));
    assert!(json.contains("\"type\":\"subscribe\""));
    assert!(json.contains("\"session_id\""));
}

#[test]
fn test_server_message_serialize() {
    let msg = ServerMessage::Output {
        session_id: nil(),
        stream: OutputStream::Stdout,
        content: "Hello".to_string(),
    };
    let json = frame_text(encode_server_message(&msg));
    assert!(json.contains("\"type\":\"output\""));
    assert!(json.contains("\"stream\":\"stdout\""));
}

#[test]
fn test_client_message_deserialize() {
    let json = r#"{"type":"subscribe","session_id":"00000000-0000-0000-0000-000000000000"}"#;
    let msg = decode_client_message(json.as_bytes()).expect("canonical frame decodes");
    matches!(msg, ClientMessage::Subscribe { .. });
}

#[test]
fn test_client_frames_round_trip() {
    let id = Uid { value: 0x123456789abcdef0fedcba9876543210 };
    let cases = vec![
        ClientMessage::Subscribe { session_id: id },
        ClientMessage::Unsubscribe { session_id: id },
        ClientMessage::Cancel { session_id: id },
        ClientMessage::Ping,
    ];
    for msg in cases {
        let bytes = encode_client_message(&msg);
        assert_eq!(decode_client_message(&bytes), Some(msg));
    }
}

#[test]
fn test_client_frame_exact_text() {
    let id = Uid { value: 0x123456789abcdef0fedcba9876543210 };
    let json = frame_text(encode_client_message(&ClientMessage::Subscribe { session_id: id }));
    assert_eq!(
        json,
        "{\"type\":\"subscribe\",\"session_id\":\"12345678-9abc-def0-fedc-ba9876543210\"}"
    );
    let ping = frame_text(encode_client_message(&ClientMessage::Ping));
    assert_eq!(ping, "{\"type\":\"ping\"}");
}

#[test]
fn test_decode_accepts_upper_case_ids() {
    let json = "{\"type\":\"subscribe\",\"session_id\":\"12345678-9ABC-DEF0-FEDC-BA9876543210\"}";
    let msg = decode_client_message(json.as_bytes()).expect("upper-case digits are accepted");
    assert_eq!(
        msg,
        ClientMessage::Subscribe { session_id: Uid { value: 0x123456789abcdef0fedcba9876543210 } }
    );
}

#[test]
fn test_decode_rejects_malformed_frames() {
    let bad: Vec<&str> = vec![
        "",
        "{}",
        "{\"type\":\"subscribe\"}",
        "{\"type\":\"subscribe\",\"session_id\":\"123\"}",
        "{\"type\":\"subscribe\",\"session_id\":\"1234567890abcdef1234567890abcdefxxxx\"}",
        "{\"type\":\"subscribe\",\"session_id\":\"12345678_9abc_def0_fedc_ba9876543210\"}",
        "{\"type\":\"unknown\",\"session_id\":\"12345678-9abc-def0-fedc-ba9876543210\"}",
        "{\"type\":\"ping\"} ",
        "not json at all",
    ];
    for frame in bad {
        assert_eq!(decode_client_message(frame.as_bytes()), None, "{}", frame);
    }
}

#[test]
fn test_server_frame_exact_text() {
    let id = Uid { value: 1 };
    let json = frame_text(encode_server_message(&ServerMessage::Subscribed { session_id: id }));
    assert_eq!(
        json,
        "{\"type\":\"subscribed\",\"session_id\":\"00000000-0000-0000-0000-000000000001\"}"
    );
    let json = frame_text(encode_server_message(&ServerMessage::Status {
        session_id: id,
        status: SessionStatus::Cancelled,
    }));
    assert_eq!(
        json,
        "{\"type\":\"status\",\"session_id\":\"00000000-0000-0000-0000-000000000001\",\"status\":\"cancelled\"}"
    );
    let json = frame_text(encode_server_message(&ServerMessage::Pong));
    assert_eq!(json, "{\"type\":\"pong\"}");
}

#[test]
fn test_server_frame_escapes_content() {
    let msg = ServerMessage::Error {
        message: "say \"hi\"\\\nnow\tplease\u{1}".to_string(),
    };
    let json = frame_text(encode_server_message(&msg));
    assert_eq!(
        json,
        "{\"type\":\"error\",\"message\":\"say \\\"hi\\\"\\\\\\nnow\\tplease\\u0001\"}"
    );
}

#[test]
fn test_message_duplicate_is_equal() {
    let msg = ServerMessage::Output {
        session_id: Uid { value: 7 },
        stream: OutputStream::Stderr,
        content: "line".to_string(),
    };
    assert_eq!(msg.duplicate(), msg);
}
