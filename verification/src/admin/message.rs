//! What is said over the admin socket.

use vstd::prelude::*;

verus! {

/// The error type of `rkyv`.
#[verifier::external_type_specification]
#[verifier::external_body]
pub struct ExRancorError(rkyv::rancor::Error);

/// Messages that can be sent from a client to the admin server.
#[derive(Debug)]
pub enum Message {
    /// Check that the server is running and the database is open.
    HealthCheck,

    /// Back the database up.
    Backup {
        /// Path of the backup.
        path: String,
    },
}

/// Error when deserializing from bytes fails.
#[derive(Debug)]
pub struct DeserializeError(pub rkyv::rancor::Error);

impl DeserializeError {
    /// Describe the error.
    pub fn message(&self) -> (res: String)
        ensures
            res@ == "error while deserializing"@,
    {
        "error while deserializing".to_owned()
    }
}

/// Error returned during a health check when the server reports that the database is closed.
#[derive(Debug, Clone, Copy, PartialEq, Eq, Structural)]
pub struct DatabaseClosed;

/// Error returned for a request that needs the database.
#[derive(Debug)]
pub enum ResponseError {
    /// The database returned an error when processing the request.
    Database {
        /// Message from the database error.
        error_message: String,
    },

    /// The server's database connection is closed.
    DatabaseClosed,
}

/// What came of backing the database up.
#[derive(Debug)]
pub enum BackupError {
    /// The connection to the database is closed.
    Closed,

    /// The database returned an error.
    Database {
        /// Message from the database error.
        error_message: String,
    },
}

impl vstd::std_specs::convert::FromSpecImpl<BackupError> for ResponseError {
    open spec fn obeys_from_spec() -> bool {
        true
    }

    open spec fn from_spec(value: BackupError) -> ResponseError {
        match value {
            BackupError::Closed => ResponseError::DatabaseClosed,
            BackupError::Database { error_message } => ResponseError::Database { error_message },
        }
    }
}

impl From<BackupError> for ResponseError {
    fn from(value: BackupError) -> (res: ResponseError) {
        match value {
            BackupError::Closed => ResponseError::DatabaseClosed,
            BackupError::Database { error_message } => ResponseError::Database { error_message },
        }
    }
}

/// The response to a health check.
pub open spec fn health_check_response(open: bool) -> Result<(), DatabaseClosed> {
    if open {
        Ok(())
    } else {
        Err(DatabaseClosed)
    }
}

/// The response to a request for a backup.
pub open spec fn backup_response(result: Result<(), BackupError>) -> Result<(), ResponseError> {
    match result {
        Ok(()) => Ok(()),
        Err(BackupError::Closed) => Err(ResponseError::DatabaseClosed),
        Err(BackupError::Database { error_message }) => Err(
            ResponseError::Database { error_message },
        ),
    }
}

/// What the database has to say before a message can be answered.
#[derive(Debug)]
pub enum Question {
    /// Whether the database is open.
    IsOpen,

    /// Whether the database could be backed up to the path.
    Backup(String),
}

impl Message {
    /// Determine what to ask the database to answer the message.
    pub fn question(self) -> (res: Question)
        ensures
            res == match self {
                Message::HealthCheck => Question::IsOpen,
                Message::Backup { path } => Question::Backup(path),
            },
    {
        match self {
            Message::HealthCheck => Question::IsOpen,
            Message::Backup { path } => Question::Backup(path),
        }
    }
}

/// Determine the response to [`Message::HealthCheck`] from whether the database is open.
pub fn respond_to_health_check(open: bool) -> (res: Result<(), DatabaseClosed>)
    ensures
        res == health_check_response(open),
{
    if open {
        Ok(())
    } else {
        Err(DatabaseClosed)
    }
}

/// Determine the response to [`Message::Backup`] from what came of the backup.
pub fn respond_to_backup(result: Result<(), BackupError>) -> (res: Result<(), ResponseError>)
    ensures
        res == backup_response(result),
{
    match result {
        Ok(()) => Ok(()),
        Err(error) => Err(ResponseError::from(error)),
    }
}

/// The response to a health check is good if and only if the database is open.
pub proof fn open_database_is_healthy(open: bool)
    ensures
        health_check_response(open) is Ok <==> open,
{
}

/// The response to a request for a backup is good if and only if the backup was made. Otherwise it
/// tells what the database told, or that it is closed.
pub proof fn backup_response_tells_the_error(result: Result<(), BackupError>)
    ensures
        backup_response(result) is Ok <==> result is Ok,
        result matches Err(BackupError::Closed) ==> backup_response(result) == Err::<
            (),
            ResponseError,
        >(ResponseError::DatabaseClosed),
        result matches Err(BackupError::Database { error_message: told })
            ==> backup_response(result) matches Err(ResponseError::Database { error_message })
            && error_message == told,
{
}

} // verus!
