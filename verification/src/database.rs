//! The SQLite database: how it is opened, used from one thread, and closed.

pub mod init;
pub mod thread;

use crate::text::concat3;
use vstd::prelude::*;

verus! {

/// The error type of `rusqlite`.
#[verifier::external_type_specification]
#[verifier::external_body]
pub struct ExSqliteError(rusqlite::Error);

/// SQLite error.
#[derive(Debug)]
pub struct DatabaseError {
    /// Source of the error.
    pub source: rusqlite::Error,
}

impl DatabaseError {
    /// Create a new [`DatabaseError`].
    pub fn new(source: rusqlite::Error) -> (res: DatabaseError)
        ensures
            res == (DatabaseError { source }),
    {
        DatabaseError { source }
    }

    /// Describe the error.
    pub fn message(&self) -> (res: String)
        ensures
            res@ == "SQLite error"@,
    {
        "SQLite error".to_owned()
    }
}

/// Error returned when initializing the database fails.
#[derive(Debug)]
pub struct InitError(pub DatabaseError);

impl InitError {
    /// Describe the error.
    pub fn message(&self) -> (res: String)
        ensures
            res@ == "error setting pragma options"@,
    {
        "error setting pragma options".to_owned()
    }
}

/// What a thread panicked with.
#[derive(Debug)]
pub enum PanicPayload {
    /// Text that was put together at run time.
    Owned(String),

    /// Text that is part of the program.
    Borrowed(&'static str),

    /// Anything else.
    Other,
}

/// The text in a panic payload, if it holds one.
pub open spec fn payload_text(payload: PanicPayload) -> Option<Seq<char>> {
    match payload {
        PanicPayload::Owned(text) => Some(text@),
        PanicPayload::Borrowed(text) => Some(text@),
        PanicPayload::Other => None,
    }
}

/// The text of an optional string.
pub open spec fn optional_text(text: Option<String>) -> Option<Seq<char>> {
    match text {
        Some(text) => Some(text@),
        None => None,
    }
}

/// Convert a payload from a caught panic into a string if that was the payload, which it usually
/// is.
pub fn panic_payload_into_string(payload: PanicPayload) -> (res: Option<String>)
    ensures
        optional_text(res) == payload_text(payload),
{
    match payload {
        PanicPayload::Owned(text) => Some(text),
        PanicPayload::Borrowed(text) => Some(text.to_owned()),
        PanicPayload::Other => None,
    }
}

/// `start`, and the message of a panic if there is one.
pub open spec fn with_panic_message(start: Seq<char>, message: Option<Seq<char>>) -> Seq<char> {
    match message {
        Some(message) => start + " with message \""@ + message + "\""@,
        None => start,
    }
}

fn append_panic_message(start: &str, message: &Option<String>) -> (res: String)
    ensures
        res@ == with_panic_message(start@, optional_text(*message)),
{
    match message {
        Some(message) => {
            let mut res = concat3(start, " with message \"", message.as_str());
            res.append("\"");
            res
        },
        None => start.to_owned(),
    }
}

/// Error returned when opening a database fails.
#[derive(Debug)]
pub enum OpenError {
    /// Error opening the database for writing.
    Open(DatabaseError),

    /// Error initializing the database.
    Init(InitError),

    /// The thread opening and initializing the database panicked.
    Panic {
        /// Message the thread panicked with.
        message: Option<String>,
    },
}

impl OpenError {
    /// Create a [`OpenError::Panic`].
    pub fn from_panic(payload: PanicPayload) -> (res: OpenError)
        ensures
            res matches OpenError::Panic { message } && optional_text(message) == payload_text(
                payload,
            ),
    {
        OpenError::Panic { message: panic_payload_into_string(payload) }
    }

    /// Describe the error.
    pub fn message(&self) -> (res: String)
        ensures
            res@ == match *self {
                OpenError::Open(_) => "error opening the database"@,
                OpenError::Init(_) => "error initializing the database"@,
                OpenError::Panic { message } => with_panic_message(
                    "panic while opening or initializing the database"@,
                    optional_text(message),
                ),
            },
    {
        match self {
            OpenError::Open(_) => "error opening the database".to_owned(),
            OpenError::Init(_) => "error initializing the database".to_owned(),
            OpenError::Panic { message } => append_panic_message(
                "panic while opening or initializing the database",
                message,
            ),
        }
    }
}

/// Error returned when closing the database connection fails.
#[derive(Debug)]
pub enum CloseError {
    /// At least one other connection handle to the database still exists.
    OpenConnection,

    /// The database returned an error while closing.
    Database(DatabaseError),

    /// The connection thread panicked before closing.
    Panic {
        /// Message the thread panicked with.
        message: Option<String>,
    },
}

impl CloseError {
    /// Create a [`CloseError::Panic`].
    pub fn from_panic(payload: PanicPayload) -> (res: CloseError)
        ensures
            res matches CloseError::Panic { message } && optional_text(message) == payload_text(
                payload,
            ),
    {
        CloseError::Panic { message: panic_payload_into_string(payload) }
    }

    /// Describe the error.
    pub fn message(&self) -> (res: String)
        ensures
            res@ == match *self {
                CloseError::OpenConnection => "other connection handles still exist"@,
                CloseError::Database(_) => "database error while closing"@,
                CloseError::Panic { message } => with_panic_message(
                    "the connection thread panicked"@,
                    optional_text(message),
                ),
            },
    {
        match self {
            CloseError::OpenConnection => "other connection handles still exist".to_owned(),
            CloseError::Database(_) => "database error while closing".to_owned(),
            CloseError::Panic { message } => append_panic_message(
                "the connection thread panicked",
                message,
            ),
        }
    }
}

/// The message of a panic is told in quotation marks, if there is one.
pub proof fn panic_message_is_quoted(start: Seq<char>, payload: PanicPayload)
    ensures
        ({
            let told = with_panic_message(start, payload_text(payload));
            match payload {
                PanicPayload::Owned(text) => told == start + " with message \""@ + text@ + "\""@,
                PanicPayload::Borrowed(text) => told == start + " with message \""@ + text@ + "\""@,
                PanicPayload::Other => told == start,
            }
        }),
{
}

} // verus!
