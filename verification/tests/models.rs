use ralphtown::error::{map_git_error, AppError, DbError, GitError};
use ralphtown::messages;
use ralphtown::models::{MessageRole, OutputStream, SessionStatus};

#[test]
fn test_session_status_text_round_trip() {
    let all = [
        SessionStatus::Idle,
        SessionStatus::Running,
        SessionStatus::Completed,
        SessionStatus::Error,
        SessionStatus::Cancelled,
    ];
    for v in all {
        assert_eq!(SessionStatus::from_str(v.as_str()), Ok(v));
    }
    assert_eq!(SessionStatus::Idle.as_str(), "idle");
    assert_eq!(SessionStatus::Cancelled.as_str(), "cancelled");
}

#[test]
fn test_session_status_rejects_unknown_text() {
    let e = SessionStatus::from_str("paused").unwrap_err();
    assert_eq!(e, "invalid session status: 'paused'");
}

#[test]
fn test_message_role_text_round_trip() {
    let all = [MessageRole::User, MessageRole::Assistant, MessageRole::System];
    for v in all {
        assert_eq!(MessageRole::from_str(v.as_str()), Ok(v));
    }
    assert_eq!(MessageRole::from_str("robot").unwrap_err(), "invalid message role: 'robot'");
}

#[test]
fn test_output_stream_text_round_trip() {
    assert_eq!(OutputStream::from_str("stdout"), Ok(OutputStream::Stdout));
    assert_eq!(OutputStream::from_str("stderr"), Ok(OutputStream::Stderr));
    assert_eq!(OutputStream::Stdout.as_str(), "stdout");
    assert_eq!(OutputStream::Stderr.as_str(), "stderr");
    assert_eq!(OutputStream::from_str("tty").unwrap_err(), "invalid output stream: 'tty'");
}

#[test]
fn test_wire_forms_of_stored_values() {
    assert!(matches!(
        messages::SessionStatus::from(SessionStatus::Running),
        messages::SessionStatus::Running
    ));
    assert!(matches!(
        messages::SessionStatus::from(SessionStatus::Cancelled),
        messages::SessionStatus::Cancelled
    ));
    assert!(matches!(
        messages::OutputStream::from(OutputStream::Stderr),
        messages::OutputStream::Stderr
    ));
}

#[test]
fn test_app_error_status_codes() {
    assert_eq!(AppError::Internal("x".to_string()).status_code(), 500);
    assert_eq!(AppError::NotFound("x".to_string()).status_code(), 404);
    assert_eq!(AppError::BadRequest("x".to_string()).status_code(), 400);
    assert_eq!(AppError::Conflict("x".to_string()).status_code(), 409);
    let e = AppError::UnprocessableEntity { message: "m".to_string(), field: None, value: None };
    assert_eq!(e.status_code(), 422);
    assert_eq!(e.code_str(), "PARSE_ERROR");
    assert_eq!(AppError::Internal("x".to_string()).code_str(), "INTERNAL_ERROR");
}

#[test]
fn test_app_error_display_strings() {
    assert_eq!(
        AppError::Internal("boom".to_string()).display_string(),
        "Internal error: boom"
    );
    assert_eq!(
        AppError::NotFound("gone".to_string()).display_string(),
        "Not found: gone"
    );
    assert_eq!(
        AppError::BadRequest("nope".to_string()).display_string(),
        "Bad request: nope"
    );
    assert_eq!(
        AppError::Conflict("twice".to_string()).display_string(),
        "Conflict: twice"
    );
}

#[test]
fn test_app_error_from_db() {
    match AppError::from_db(DbError::NotFound) {
        AppError::NotFound(m) => assert_eq!(m, "Resource not found"),
        _ => panic!("wrong variant"),
    }
    match AppError::from_db(DbError::ParseError {
        message: "bad status".to_string(),
        value: "paused".to_string(),
        field: "status".to_string(),
    }) {
        AppError::UnprocessableEntity { message, field, value } => {
            assert_eq!(message, "bad status");
            assert_eq!(field, Some("status".to_string()));
            assert_eq!(value, Some("paused".to_string()));
        }
        _ => panic!("wrong variant"),
    }
    match AppError::from_db(DbError::ConstraintViolation("unique".to_string())) {
        AppError::Conflict(m) => assert_eq!(m, "unique"),
        _ => panic!("wrong variant"),
    }
    match AppError::from_db(DbError::Sqlite("locked".to_string())) {
        AppError::Internal(m) => assert_eq!(m, "SQLite error: locked"),
        _ => panic!("wrong variant"),
    }
    match AppError::from_db(DbError::NoDataDir) {
        AppError::Internal(m) => assert_eq!(m, "Failed to determine data directory"),
        _ => panic!("wrong variant"),
    }
}

#[test]
fn test_map_git_error() {
    match map_git_error(GitError::NotARepo("/tmp/x".to_string())) {
        AppError::BadRequest(m) => assert_eq!(m, "Not a git repository: /tmp/x"),
        _ => panic!("wrong variant"),
    }
    match map_git_error(GitError::InvalidBranch("dev".to_string())) {
        AppError::BadRequest(m) => assert_eq!(m, "Invalid branch: dev"),
        _ => panic!("wrong variant"),
    }
    match map_git_error(GitError::OperationFailed("merge".to_string())) {
        AppError::Internal(m) => assert_eq!(m, "Git operation failed: merge"),
        _ => panic!("wrong variant"),
    }
    match map_git_error(GitError::CommandFailed("push".to_string())) {
        AppError::Internal(m) => assert_eq!(m, "Git command failed: push"),
        _ => panic!("wrong variant"),
    }
}
