//! The application's error vocabulary: the store's errors, the versioned
//! file tree's errors, and the application error that answers a request,
//! with its status code and exact message texts.

use vstd::prelude::*;
use vstd::string::StringExecFns;

verus! {

/// An application error, ready to answer a request with.
#[derive(Debug, Clone)]
pub enum AppError {
    /// Internal server error.
    Internal(String),
    /// Resource not found.
    NotFound(String),
    /// Bad request.
    BadRequest(String),
    /// Conflict, such as a constraint violation.
    Conflict(String),
    /// Unprocessable entity, such as a parse error.
    UnprocessableEntity { message: String, field: Option<String>, value: Option<String> },
}

/// An error of the store.
#[derive(Debug, Clone)]
pub enum DbError {
    /// The underlying store reported an error.
    Sqlite(String),
    /// No data directory could be determined.
    NoDataDir,
    /// An input or output error while opening the store.
    Io(String),
    /// The record asked for is not there.
    NotFound,
    /// A stored value does not parse.
    ParseError { message: String, value: String, field: String },
    /// A constraint was violated.
    ConstraintViolation(String),
    /// A stored value is invalid.
    InvalidData(String),
}

/// An error of the versioned file tree.
#[derive(Debug, Clone)]
pub enum GitError {
    /// The path is not a repository.
    NotARepo(String),
    /// The branch named does not exist or cannot be used.
    InvalidBranch(String),
    /// An operation on the repository failed.
    OperationFailed(String),
    /// An external command failed.
    CommandFailed(String),
}

impl AppError {
    /// The status code this error answers with.
    pub fn status_code(&self) -> (r: u16)
        ensures
            r == match *self {
                AppError::Internal(_) => 500u16,
                AppError::NotFound(_) => 404u16,
                AppError::BadRequest(_) => 400u16,
                AppError::Conflict(_) => 409u16,
                AppError::UnprocessableEntity { .. } => 422u16,
            },
    {
        match self {
            AppError::Internal(_) => 500,
            AppError::NotFound(_) => 404,
            AppError::BadRequest(_) => 400,
            AppError::Conflict(_) => 409,
            AppError::UnprocessableEntity { .. } => 422,
        }
    }

    /// The short machine-readable code this error answers with.
    pub fn code_str(&self) -> (r: &'static str)
        ensures
            r@ == match *self {
                AppError::Internal(_) => "INTERNAL_ERROR"@,
                AppError::NotFound(_) => "NOT_FOUND"@,
                AppError::BadRequest(_) => "BAD_REQUEST"@,
                AppError::Conflict(_) => "CONFLICT"@,
                AppError::UnprocessableEntity { .. } => "PARSE_ERROR"@,
            },
    {
        match self {
            AppError::Internal(_) => "INTERNAL_ERROR",
            AppError::NotFound(_) => "NOT_FOUND",
            AppError::BadRequest(_) => "BAD_REQUEST",
            AppError::Conflict(_) => "CONFLICT",
            AppError::UnprocessableEntity { .. } => "PARSE_ERROR",
        }
    }

    /// The human-readable message this error answers with.
    pub fn message(&self) -> (r: String)
        ensures
            r@ == match *self {
                AppError::Internal(m) => m@,
                AppError::NotFound(m) => m@,
                AppError::BadRequest(m) => m@,
                AppError::Conflict(m) => m@,
                AppError::UnprocessableEntity { message: m, .. } => m@,
            },
    {
        match self {
            AppError::Internal(m) => m.clone(),
            AppError::NotFound(m) => m.clone(),
            AppError::BadRequest(m) => m.clone(),
            AppError::Conflict(m) => m.clone(),
            AppError::UnprocessableEntity { message: m, .. } => m.clone(),
        }
    }

    /// The error written out as one line, as it is logged or displayed.
    pub fn display_string(&self) -> (r: String)
        ensures
            r@ == match *self {
                AppError::Internal(m) => "Internal error: "@ + m@,
                AppError::NotFound(m) => "Not found: "@ + m@,
                AppError::BadRequest(m) => "Bad request: "@ + m@,
                AppError::Conflict(m) => "Conflict: "@ + m@,
                AppError::UnprocessableEntity { message: m, .. } => "Unprocessable entity: "@
                    + m@,
            },
    {
        match self {
            AppError::Internal(m) => String::from_str("Internal error: ").concat(m.as_str()),
            AppError::NotFound(m) => String::from_str("Not found: ").concat(m.as_str()),
            AppError::BadRequest(m) => String::from_str("Bad request: ").concat(m.as_str()),
            AppError::Conflict(m) => String::from_str("Conflict: ").concat(m.as_str()),
            AppError::UnprocessableEntity { message: m, .. } => String::from_str(
                "Unprocessable entity: ",
            ).concat(m.as_str()),
        }
    }

    /// The application error a store error becomes: missing records turn
    /// into not-found, parse errors keep their field and value, constraint
    /// violations become conflicts, and everything else is internal.
    pub fn from_db(err: DbError) -> (r: AppError)
        ensures
            match err {
                DbError::NotFound => r matches AppError::NotFound(m) && m@
                    == "Resource not found"@,
                DbError::ParseError { message, value, field } => r matches
                    AppError::UnprocessableEntity { message: m, field: f, value: v } && (m@
                    == message@) && (f matches Some(f2) && f2@ == field@) && (v matches Some(v2)
                    && v2@ == value@),
                DbError::ConstraintViolation(msg) => r matches AppError::Conflict(m) && m@
                    == msg@,
                DbError::Sqlite(msg) => r matches AppError::Internal(m) && m@
                    == "SQLite error: "@ + msg@,
                DbError::NoDataDir => r matches AppError::Internal(m) && m@
                    == "Failed to determine data directory"@,
                DbError::Io(msg) => r matches AppError::Internal(m) && m@ == "IO error: "@
                    + msg@,
                DbError::InvalidData(msg) => r matches AppError::Internal(m) && m@
                    == "Invalid data: "@ + msg@,
            },
    {
        match err {
            DbError::NotFound => AppError::NotFound(String::from_str("Resource not found")),
            DbError::ParseError { message, value, field } => AppError::UnprocessableEntity {
                message,
                field: Some(field),
                value: Some(value),
            },
            DbError::ConstraintViolation(msg) => AppError::Conflict(msg),
            DbError::Sqlite(msg) => AppError::Internal(
                String::from_str("SQLite error: ").concat(msg.as_str()),
            ),
            DbError::NoDataDir => AppError::Internal(
                String::from_str("Failed to determine data directory"),
            ),
            DbError::Io(msg) => AppError::Internal(
                String::from_str("IO error: ").concat(msg.as_str()),
            ),
            DbError::InvalidData(msg) => AppError::Internal(
                String::from_str("Invalid data: ").concat(msg.as_str()),
            ),
        }
    }
}

/// The application error a file-tree error becomes: bad input for a wrong
/// path or branch, an internal error for a failed operation or command.
pub fn map_git_error(e: GitError) -> (r: AppError)
    ensures
        match e {
            GitError::NotARepo(msg) => r matches AppError::BadRequest(m) && m@
                == "Not a git repository: "@ + msg@,
            GitError::InvalidBranch(msg) => r matches AppError::BadRequest(m) && m@
                == "Invalid branch: "@ + msg@,
            GitError::OperationFailed(msg) => r matches AppError::Internal(m) && m@
                == "Git operation failed: "@ + msg@,
            GitError::CommandFailed(msg) => r matches AppError::Internal(m) && m@
                == "Git command failed: "@ + msg@,
        },
{
    match e {
        GitError::NotARepo(msg) => AppError::BadRequest(
            String::from_str("Not a git repository: ").concat(msg.as_str()),
        ),
        GitError::InvalidBranch(msg) => AppError::BadRequest(
            String::from_str("Invalid branch: ").concat(msg.as_str()),
        ),
        GitError::OperationFailed(msg) => AppError::Internal(
            String::from_str("Git operation failed: ").concat(msg.as_str()),
        ),
        GitError::CommandFailed(msg) => AppError::Internal(
            String::from_str("Git command failed: ").concat(msg.as_str()),
        ),
    }
}

} // verus!
