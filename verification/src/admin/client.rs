//! The side of the admin socket that asks.

use crate::admin::connection::{
    frame, received, ClosedError, Connection, Received, MAX_MESSAGE_LEN,
};
use crate::admin::message::{
    backup_response, health_check_response, BackupError, DatabaseClosed, DeserializeError,
    ResponseError,
};
use crate::text::concat2;
use crate::trace::{last_output, lemma_told_one_more, state_after, Machine};
use vstd::prelude::*;

verus! {

/// Error when sending a message to the admin server.
#[derive(Debug)]
pub struct SendError(pub std::io::Error);

/// Error when receiving a response from the admin server.
#[derive(Debug)]
pub struct ReceiveError(pub std::io::Error);

/// Error communicating with the admin socket.
#[derive(Debug)]
pub enum CommunicationError {
    /// Error sending message.
    Send(SendError),

    /// Error receiving response.
    Receive(ReceiveError),

    /// Error deserializing the response.
    Deserialize(DeserializeError),
}

/// Error returned when a health check fails.
#[derive(Debug)]
pub enum HealthCheckError {
    /// Error communicating with the admin socket.
    Communication(CommunicationError),

    /// Server's database connection is closed, server restart recommended.
    DatabaseClosed,
}

/// Error returned when a request to the admin socket fails or the response is an error.
#[derive(Debug)]
pub enum RequestError {
    /// Error communicating with the admin socket.
    Communication(CommunicationError),

    /// The database returned an error when processing the request.
    Database {
        /// Message from the database error.
        error_message: String,
    },

    /// The server's database connection is closed, server restart recommended.
    DatabaseClosed,
}

impl vstd::std_specs::convert::FromSpecImpl<DatabaseClosed> for HealthCheckError {
    open spec fn obeys_from_spec() -> bool {
        true
    }

    open spec fn from_spec(value: DatabaseClosed) -> HealthCheckError {
        HealthCheckError::DatabaseClosed
    }
}

impl From<DatabaseClosed> for HealthCheckError {
    fn from(_value: DatabaseClosed) -> (res: HealthCheckError) {
        HealthCheckError::DatabaseClosed
    }
}

impl vstd::std_specs::convert::FromSpecImpl<ResponseError> for RequestError {
    open spec fn obeys_from_spec() -> bool {
        true
    }

    open spec fn from_spec(value: ResponseError) -> RequestError {
        match value {
            ResponseError::Database { error_message } => RequestError::Database { error_message },
            ResponseError::DatabaseClosed => RequestError::DatabaseClosed,
        }
    }
}

impl From<ResponseError> for RequestError {
    fn from(value: ResponseError) -> (res: RequestError) {
        match value {
            ResponseError::Database { error_message } => RequestError::Database { error_message },
            ResponseError::DatabaseClosed => RequestError::DatabaseClosed,
        }
    }
}

impl SendError {
    /// Describe the error.
    pub fn message(&self) -> (res: String)
        ensures
            res@ == "error sending message to admin server"@,
    {
        "error sending message to admin server".to_owned()
    }
}

impl ReceiveError {
    /// Describe the error.
    pub fn message(&self) -> (res: String)
        ensures
            res@ == "error receiving response from admin server"@,
    {
        "error receiving response from admin server".to_owned()
    }
}

impl CommunicationError {
    /// Error deserializing the response.
    pub fn from_deserialize(error: rkyv::rancor::Error) -> (res: CommunicationError)
        ensures
            res == CommunicationError::Deserialize(DeserializeError(error)),
    {
        CommunicationError::Deserialize(DeserializeError(error))
    }

    /// Describe the error.
    pub fn message(&self) -> (res: String)
        ensures
            res@ == match *self {
                CommunicationError::Send(_) => "error sending message"@,
                CommunicationError::Receive(_) => "error receiving response"@,
                CommunicationError::Deserialize(_) => "error deserializing response"@,
            },
    {
        match self {
            CommunicationError::Send(_) => "error sending message".to_owned(),
            CommunicationError::Receive(_) => "error receiving response".to_owned(),
            CommunicationError::Deserialize(_) => "error deserializing response".to_owned(),
        }
    }
}

impl HealthCheckError {
    /// Describe the error.
    pub fn message(&self) -> (res: String)
        ensures
            res@ == match *self {
                HealthCheckError::Communication(_) => "error communicating with admin socket"@,
                HealthCheckError::DatabaseClosed =>
                    "server's database connection is closed, server restart recommended"@,
            },
    {
        match self {
            HealthCheckError::Communication(_) => "error communicating with admin socket".to_owned(),
            HealthCheckError::DatabaseClosed =>
                "server's database connection is closed, server restart recommended".to_owned(),
        }
    }
}

impl RequestError {
    /// Describe the error.
    pub fn message(&self) -> (res: String)
        ensures
            res@ == match *self {
                RequestError::Communication(_) => "error communicating with admin socket"@,
                RequestError::Database { error_message } => "database error: "@ + error_message@,
                RequestError::DatabaseClosed =>
                    "database connection is closed, server restart recommended"@,
            },
    {
        match self {
            RequestError::Communication(_) => "error communicating with admin socket".to_owned(),
            RequestError::Database { error_message } => concat2(
                "database error: ",
                error_message.as_str(),
            ),
            RequestError::DatabaseClosed =>
                "database connection is closed, server restart recommended".to_owned(),
        }
    }
}

/// What a health check comes to, given the response or the error that prevented one.
pub open spec fn health_check_result(
    response: Result<Result<(), DatabaseClosed>, CommunicationError>,
) -> Result<(), HealthCheckError> {
    match response {
        Ok(Ok(())) => Ok(()),
        Ok(Err(DatabaseClosed)) => Err(HealthCheckError::DatabaseClosed),
        Err(error) => Err(HealthCheckError::Communication(error)),
    }
}

/// What a backup comes to, given the response or the error that prevented one.
pub open spec fn backup_result(
    response: Result<Result<(), ResponseError>, CommunicationError>,
) -> Result<(), RequestError> {
    match response {
        Ok(Ok(())) => Ok(()),
        Ok(Err(ResponseError::Database { error_message })) => Err(
            RequestError::Database { error_message },
        ),
        Ok(Err(ResponseError::DatabaseClosed)) => Err(RequestError::DatabaseClosed),
        Err(error) => Err(RequestError::Communication(error)),
    }
}

/// Admin socket client for NovelNote.
#[derive(Debug)]
pub struct AdminClient {
    connection: Connection,
}

impl View for AdminClient {
    type V = Seq<u8>;

    closed spec fn view(&self) -> Seq<u8> {
        self.connection@
    }
}

impl AdminClient {
    /// A client whose socket is connected and on which nothing was received yet.
    pub fn connect() -> (res: AdminClient)
        ensures
            res@ == Seq::<u8>::empty(),
    {
        AdminClient { connection: Connection::new() }
    }

    /// The bytes to send for a serialized message.
    ///
    /// # Errors
    ///
    /// Returns an error if the message is longer than 8 MiB.
    pub fn send(&self, message: &[u8]) -> (res: Result<Vec<u8>, SendError>)
        ensures
            res is Ok <==> message@.len() <= MAX_MESSAGE_LEN,
            res matches Ok(bytes) ==> bytes@ == frame(message@),
    {
        match self.connection.write(message) {
            Ok(bytes) => Ok(bytes),
            Err(error) => Err(SendError(error)),
        }
    }

    /// Take in bytes from the socket, and receive a serialized response if it is whole.
    ///
    /// # Errors
    ///
    /// Returns an error if the response is longer than 8 MiB.
    pub fn receive(&mut self, bytes: &[u8]) -> (res: Result<Option<Vec<u8>>, ReceiveError>)
        ensures
            match received(old(self)@ + bytes@) {
                Received::Incomplete => res matches Ok(None) && final(self)@ == old(self)@ + bytes@,
                Received::TooLong => res is Err && final(self)@ == old(self)@ + bytes@,
                Received::Message { message, rest } => {
                    &&& res matches Ok(Some(response)) && response@ == message
                    &&& final(self)@ == rest
                },
            },
    {
        self.connection.receive(bytes);
        match self.connection.read() {
            Ok(response) => Ok(response),
            Err(error) => Err(ReceiveError(error)),
        }
    }

    /// Why no response comes after the server closed the socket.
    pub fn closed(&self) -> (res: ClosedError)
        ensures
            res == if self@.len() == 0 || self@.len() == 4 {
                ClosedError::Unexpectedly
            } else {
                ClosedError::BytesRemaining
            },
    {
        self.connection.closed()
    }

    /// Determine what a health check comes to.
    ///
    /// # Errors
    ///
    /// Returns an error if there was no response or the server's database connection is closed.
    pub fn health_check(
        response: Result<Result<(), DatabaseClosed>, CommunicationError>,
    ) -> (res: Result<(), HealthCheckError>)
        ensures
            res == health_check_result(response),
    {
        match response {
            Ok(Ok(())) => Ok(()),
            Ok(Err(closed)) => Err(HealthCheckError::from(closed)),
            Err(error) => Err(HealthCheckError::Communication(error)),
        }
    }

    /// Determine what a request for a backup comes to.
    ///
    /// # Errors
    ///
    /// Returns an error if there was no response, the server's database connection is closed, or
    /// the database backup failed.
    pub fn backup(response: Result<Result<(), ResponseError>, CommunicationError>) -> (res: Result<
        (),
        RequestError,
    >)
        ensures
            res == backup_result(response),
    {
        match response {
            Ok(Ok(())) => Ok(()),
            Ok(Err(error)) => Err(RequestError::from(error)),
            Err(error) => Err(RequestError::Communication(error)),
        }
    }
}

/// How far a request has come.
#[derive(Debug, Clone, Copy, PartialEq, Eq, Structural)]
pub enum RequestResponse {
    /// The message is sent.
    Sending,

    /// The response is received.
    Receiving,

    /// The response is deserialized.
    Deserializing,

    /// The response is there, or something failed.
    Finished,
}

/// What happens while a request is made.
#[derive(Debug)]
pub enum RequestEvent {
    /// The message was sent, or not.
    Sent(Result<(), SendError>),

    /// The bytes of the response were received, or not.
    Received(Result<Vec<u8>, ReceiveError>),

    /// The response was deserialized, or not.
    Deserialized(Result<(), rkyv::rancor::Error>),
}

/// What to do next to make a request.
#[derive(Debug)]
pub enum RequestStep {
    /// Receive the response.
    Receive,

    /// Deserialize the response.
    Deserialize(Vec<u8>),

    /// Stop, with this result.
    Finish(Result<(), CommunicationError>),

    /// Nothing, what happened was not waited for.
    Idle,
}

impl Machine for RequestResponse {
    type Input = RequestEvent;

    type Output = RequestStep;

    open spec fn next(self, input: RequestEvent) -> (RequestResponse, RequestStep) {
        match (self, input) {
            (RequestResponse::Sending, RequestEvent::Sent(Ok(()))) => (
                RequestResponse::Receiving,
                RequestStep::Receive,
            ),
            (RequestResponse::Sending, RequestEvent::Sent(Err(error))) => (
                RequestResponse::Finished,
                RequestStep::Finish(Err(CommunicationError::Send(error))),
            ),
            (RequestResponse::Receiving, RequestEvent::Received(Ok(bytes))) => (
                RequestResponse::Deserializing,
                RequestStep::Deserialize(bytes),
            ),
            (RequestResponse::Receiving, RequestEvent::Received(Err(error))) => (
                RequestResponse::Finished,
                RequestStep::Finish(Err(CommunicationError::Receive(error))),
            ),
            (RequestResponse::Deserializing, RequestEvent::Deserialized(Ok(()))) => (
                RequestResponse::Finished,
                RequestStep::Finish(Ok(())),
            ),
            (RequestResponse::Deserializing, RequestEvent::Deserialized(Err(error))) => (
                RequestResponse::Finished,
                RequestStep::Finish(
                    Err(CommunicationError::Deserialize(DeserializeError(error))),
                ),
            ),
            _ => (self, RequestStep::Idle),
        }
    }
}

impl RequestResponse {
    /// How a request begins.
    pub open spec fn start() -> RequestResponse {
        RequestResponse::Sending
    }

    /// Begin to make a request. Its message is to be sent.
    pub fn new() -> (res: RequestResponse)
        ensures
            res == RequestResponse::Sending,
            res == RequestResponse::start(),
    {
        RequestResponse::Sending
    }

    /// Take in what happened and determine what to do next.
    pub fn step(&mut self, event: RequestEvent) -> (res: RequestStep)
        ensures
            (*final(self), res) == old(self).next(event),
    {
        match (*self, event) {
            (RequestResponse::Sending, RequestEvent::Sent(Ok(()))) => {
                *self = RequestResponse::Receiving;
                RequestStep::Receive
            },
            (RequestResponse::Sending, RequestEvent::Sent(Err(error))) => {
                *self = RequestResponse::Finished;
                RequestStep::Finish(Err(CommunicationError::Send(error)))
            },
            (RequestResponse::Receiving, RequestEvent::Received(Ok(bytes))) => {
                *self = RequestResponse::Deserializing;
                RequestStep::Deserialize(bytes)
            },
            (RequestResponse::Receiving, RequestEvent::Received(Err(error))) => {
                *self = RequestResponse::Finished;
                RequestStep::Finish(Err(CommunicationError::Receive(error)))
            },
            (RequestResponse::Deserializing, RequestEvent::Deserialized(Ok(()))) => {
                *self = RequestResponse::Finished;
                RequestStep::Finish(Ok(()))
            },
            (RequestResponse::Deserializing, RequestEvent::Deserialized(Err(error))) => {
                *self = RequestResponse::Finished;
                RequestStep::Finish(Err(CommunicationError::from_deserialize(error)))
            },
            _ => RequestStep::Idle,
        }
    }
}

/// Whether the `k`th of `events` tells that `response` was received, the message having been sent
/// before.
pub open spec fn received_at(events: Seq<RequestEvent>, k: int, response: Vec<u8>) -> bool {
    &&& 0 <= k < events.len()
    &&& events[k] == RequestEvent::Received(Ok(response))
    &&& exists|j: int| 0 <= j < k && (#[trigger] events[j] matches RequestEvent::Sent(Ok(_)))
}

proof fn lemma_sent(events: Seq<RequestEvent>)
    ensures
        state_after(RequestResponse::start(), events) == RequestResponse::Receiving ==> exists|
            j: int,
        |
            0 <= j < events.len() && (#[trigger] events[j] matches RequestEvent::Sent(Ok(_))),
    decreases events.len(),
{
    if events.len() > 0 && state_after(RequestResponse::start(), events)
        == RequestResponse::Receiving {
        let before = events.drop_last();
        let last = events.len() - 1;
        lemma_sent(before);
        if state_after(RequestResponse::start(), before) == RequestResponse::Sending {
            assert(events[last] matches RequestEvent::Sent(Ok(_)));
        } else {
            let j = choose|j: int|
                0 <= j < before.len() && (#[trigger] before[j] matches RequestEvent::Sent(Ok(_)));
            assert(events[j] matches RequestEvent::Sent(Ok(_)));
        }
    }
}

/// What is deserialized is what was just received, after the message was sent.
pub proof fn received_response_is_deserialized(events: Seq<RequestEvent>, response: Vec<u8>)
    requires
        events.len() > 0,
        last_output(RequestResponse::start(), events) == RequestStep::Deserialize(response),
    ensures
        received_at(events, events.len() - 1, response),
{
    let before = events.drop_last();
    lemma_sent(before);
    let j = choose|j: int|
        0 <= j < before.len() && (#[trigger] before[j] matches RequestEvent::Sent(Ok(_)));
    assert(events[j] matches RequestEvent::Sent(Ok(_)));
}

/// A client whose health check was answered learns whether the server's database is open.
pub proof fn health_check_tells_whether_the_database_is_open(open: bool)
    ensures
        health_check_result(Ok(health_check_response(open))) == if open {
            Ok::<(), HealthCheckError>(())
        } else {
            Err(HealthCheckError::DatabaseClosed)
        },
{
}

/// A client whose request for a backup was answered learns what came of the backup.
pub proof fn backup_request_tells_what_came_of_it(result: Result<(), BackupError>)
    ensures
        backup_result(Ok(backup_response(result))) == match result {
            Ok(()) => Ok::<(), RequestError>(()),
            Err(BackupError::Closed) => Err(RequestError::DatabaseClosed),
            Err(BackupError::Database { error_message }) => Err(
                RequestError::Database { error_message },
            ),
        },
{
}

/// What is asked for to make a request, given what was asked for before and what came of it: the
/// message is sent, the response is received, and just that is deserialized. A failure ends the
/// request with an error that tells what failed, and why.
pub proof fn request_follows_its_events(events: Seq<RequestEvent>, event: RequestEvent)
    ensures
        ({
            let next = last_output(RequestResponse::start(), events.push(event));
            if events.len() == 0 {
                match event {
                    RequestEvent::Sent(Ok(_)) => next is Receive,
                    RequestEvent::Sent(Err(error)) => next == RequestStep::Finish(
                        Err(CommunicationError::Send(error)),
                    ),
                    _ => next is Idle,
                }
            } else {
                match (last_output(RequestResponse::start(), events), event) {
                    (RequestStep::Receive, RequestEvent::Received(Ok(bytes))) => next
                        == RequestStep::Deserialize(bytes),
                    (RequestStep::Receive, RequestEvent::Received(Err(error))) => next
                        == RequestStep::Finish(Err(CommunicationError::Receive(error))),
                    (RequestStep::Deserialize(_), RequestEvent::Deserialized(Ok(_))) => next
                        matches RequestStep::Finish(Ok(_)),
                    (RequestStep::Deserialize(_), RequestEvent::Deserialized(Err(error))) => next
                        == RequestStep::Finish(
                        Err(CommunicationError::Deserialize(DeserializeError(error))),
                    ),
                    (RequestStep::Idle, _) => true,
                    _ => next is Idle,
                }
            }
        }),
{
    lemma_told_one_more(RequestResponse::start(), events, event);
}

/// What is not waited for changes nothing.
pub proof fn unexpected_event_changes_nothing(
    events: Seq<RequestEvent>,
    unexpected: RequestEvent,
    event: RequestEvent,
)
    requires
        last_output(RequestResponse::start(), events.push(unexpected)) is Idle,
    ensures
        last_output(RequestResponse::start(), events.push(unexpected).push(event)) == last_output(
            RequestResponse::start(),
            events.push(event),
        ),
{
    lemma_told_one_more(RequestResponse::start(), events, unexpected);
    lemma_told_one_more(RequestResponse::start(), events, event);
    lemma_told_one_more(RequestResponse::start(), events.push(unexpected), event);
}

/// A request ends well only if the message was sent, a response was received, and that was just
/// deserialized.
pub proof fn request_ends_well_with_its_response(events: Seq<RequestEvent>)
    requires
        events.len() > 0,
        last_output(RequestResponse::start(), events) matches RequestStep::Finish(Ok(_)),
    ensures
        events.last() matches RequestEvent::Deserialized(Ok(_)),
        exists|k: int, response: Vec<u8>| #[trigger] received_at(events, k, response),
{
    lemma_response_was_received(events.drop_last());
    let before = events.drop_last();
    let (k, response) = choose|k: int, response: Vec<u8>| #[trigger]
        received_at(before, k, response);
    lemma_received_before(events, k, response);
}

proof fn lemma_received_before(events: Seq<RequestEvent>, k: int, response: Vec<u8>)
    requires
        events.len() > 0,
        received_at(events.drop_last(), k, response),
    ensures
        received_at(events, k, response),
{
    let before = events.drop_last();
    let j = choose|j: int| 0 <= j < k && (#[trigger] before[j] matches RequestEvent::Sent(Ok(_)));
    assert(events[j] matches RequestEvent::Sent(Ok(_)));
}

proof fn lemma_response_was_received(events: Seq<RequestEvent>)
    requires
        state_after(RequestResponse::start(), events) == RequestResponse::Deserializing,
    ensures
        exists|k: int, response: Vec<u8>| #[trigger] received_at(events, k, response),
    decreases events.len(),
{
    let before = events.drop_last();
    if state_after(RequestResponse::start(), before) == RequestResponse::Deserializing {
        lemma_response_was_received(before);
        let (k, response) = choose|k: int, response: Vec<u8>| #[trigger]
            received_at(before, k, response);
        lemma_received_before(events, k, response);
    } else {
        match events.last() {
            RequestEvent::Received(Ok(response)) => {
                received_response_is_deserialized(events, response);
            },
            _ => {},
        }
    }
}

/// A client learns of an error that prevented a response as just that error.
pub proof fn communication_errors_are_passed_on(error: CommunicationError)
    ensures
        health_check_result(Err(error)) == Err::<(), HealthCheckError>(
            HealthCheckError::Communication(error),
        ),
        backup_result(Err(error)) == Err::<(), RequestError>(RequestError::Communication(error)),
{
}

} // verus!
