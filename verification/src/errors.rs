//! The error type shared by every operation of the engine.

use vstd::prelude::*;
use vstd::string::StringExecFns;
use tokio_postgres::error::SqlState;

verus! {

/// Why an operation was refused.
///
/// `Validation` is a caller error (bad dice, a turn that cannot be confirmed),
/// `NotFound` a missing record or a gap in the board, `Database` a fault of the
/// storage behind the engine, `Conflict` a record that already exists and
/// `Unauthorized` a caller without the needed role. Each carries a message for
/// the operator.
#[derive(Debug, Clone)]
pub enum AppError {
    Validation(String),
    Database(String),
    Conflict(String),
    NotFound(String),
    Unauthorized(String),
}

impl AppError {
    /// The message that the error carries.
    pub open spec fn message(self) -> Seq<char> {
        match self {
            AppError::Validation(m) => m@,
            AppError::Database(m) => m@,
            AppError::Conflict(m) => m@,
            AppError::NotFound(m) => m@,
            AppError::Unauthorized(m) => m@,
        }
    }

    /// The words that introduce the message of each kind of error.
    pub open spec fn prefix(self) -> Seq<char> {
        match self {
            AppError::Validation(_) => "validation error: "@,
            AppError::Database(_) => "database error: "@,
            AppError::Conflict(_) => "conflict: "@,
            AppError::NotFound(_) => "not found: "@,
            AppError::Unauthorized(_) => "unauthorized: "@,
        }
    }

    /// The HTTP status that answers a request that failed with this error.
    pub open spec fn spec_status(self) -> u16 {
        match self {
            AppError::Validation(_) => 400,
            AppError::Database(_) => 500,
            AppError::Conflict(_) => 409,
            AppError::NotFound(_) => 404,
            AppError::Unauthorized(_) => 401,
        }
    }

    /// The HTTP status that answers a request that failed with this error.
    pub fn status(&self) -> (r: u16)
        ensures
            r == self.spec_status(),
    {
        match self {
            AppError::Validation(_) => 400,
            AppError::Database(_) => 500,
            AppError::Conflict(_) => 409,
            AppError::NotFound(_) => 404,
            AppError::Unauthorized(_) => 401,
        }
    }

    /// The error as one line of text: the kind's prefix, then the message.
    pub fn to_string(&self) -> (r: String)
        ensures
            r@ == self.prefix() + self.message(),
    {
        match self {
            AppError::Validation(m) => String::from_str("validation error: ").concat(m.as_str()),
            AppError::Database(m) => String::from_str("database error: ").concat(m.as_str()),
            AppError::Conflict(m) => String::from_str("conflict: ").concat(m.as_str()),
            AppError::NotFound(m) => String::from_str("not found: ").concat(m.as_str()),
            AppError::Unauthorized(m) => String::from_str("unauthorized: ").concat(m.as_str()),
        }
    }
}

/// The name of the error's kind, as it is written in logs.
pub fn self_code(err: &AppError) -> (r: &'static str)
    ensures
        r@ == match *err {
            AppError::Validation(_) => "Validation"@,
            AppError::Database(_) => "Database"@,
            AppError::Conflict(_) => "Conflict"@,
            AppError::NotFound(_) => "NotFound"@,
            AppError::Unauthorized(_) => "Unauthorized"@,
        },
{
    match err {
        AppError::Validation(_) => "Validation",
        AppError::Database(_) => "Database",
        AppError::Conflict(_) => "Conflict",
        AppError::NotFound(_) => "NotFound",
        AppError::Unauthorized(_) => "Unauthorized",
    }
}

/// The error of the PostgreSQL client. Nothing is known of what is inside.
#[verifier::external_type_specification]
#[verifier::external_body]
pub struct ExPgError(tokio_postgres::Error);

/// `tokio_postgres::Error::code`, held against
/// `SqlState::UNIQUE_VIOLATION`: whether the database refused a value that
/// exists already where it has to be unique. Nothing is claimed of the
/// answer.
#[verifier::external_body]
fn is_unique_violation(e: &tokio_postgres::Error) -> (r: bool) {
    e.code() == Some(&SqlState::UNIQUE_VIOLATION)
}

/// `tokio_postgres::Error::as_db_error` and `DbError::detail`: the detail
/// that the database added to its message, if any. Nothing is claimed of
/// it.
#[verifier::external_body]
fn sql_detail(e: &tokio_postgres::Error) -> (r: Option<String>) {
    match e.as_db_error() {
        Some(db) => match db.detail() {
            Some(detail) => Some(detail.to_string()),
            None => None,
        },
        None => None,
    }
}

/// The error as its `Display` impl writes it. Nothing is claimed of the
/// text.
#[verifier::external_body]
fn sql_text(e: &tokio_postgres::Error) -> (r: String) {
    e.to_string()
}

/// The message of a conflict for which the database gives no detail.
pub open spec fn already_exists() -> Seq<char> {
    "already exists"@
}

/// The error for a failure of the database, from what the client reports of
/// it: a conflict, with the database's detail, where a value exists already
/// that has to be unique (`unique`), and else a database error with the
/// text of the failure.
pub fn db_failure(unique: bool, detail: Option<String>, text: String) -> (r: AppError)
    ensures
        unique ==> r is Conflict && r.message() == (match detail {
            Some(d) => d@,
            None => already_exists(),
        }),
        !unique ==> r is Database && r.message() == text@,
{
    if unique {
        AppError::Conflict(
            match detail {
                Some(d) => d,
                None => String::from_str("already exists"),
            },
        )
    } else {
        AppError::Database(text)
    }
}

/// The error for a failure of the PostgreSQL client: a conflict or a
/// database error, as `db_failure` says for what the client reports.
pub fn from_pg_error(e: &tokio_postgres::Error) -> (r: AppError)
    ensures
        r is Conflict || r is Database,
{
    db_failure(is_unique_violation(e), sql_detail(e), sql_text(e))
}

} // verus!
