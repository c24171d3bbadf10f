//! The side of the admin socket that answers.

use crate::admin::message::{DeserializeError, Message};
use crate::path::Platform;
use crate::text::{concat2, concat3, decimal, numeral};
use crate::trace::{last_output, lemma_told_one_more, state_after, Machine};
use vstd::prelude::*;

verus! {

/// Possible errors when accepting new connections.
#[derive(Debug)]
pub enum AcceptError {
    /// Error accepting new connection.
    Accept(std::io::Error),

    /// Error getting the credentials of the incoming connection.
    PeerCreds(std::io::Error),

    /// UID of the incoming connection is unknown.
    UidUnknown,

    /// UID of the incoming connection is not root or the UID of the current process.
    Unauthorized(u32),
}

impl AcceptError {
    /// Describe the error, given the message of the error that caused it, if there is one.
    pub fn message(&self, cause: &str) -> (res: String)
        ensures
            res@ == match *self {
                AcceptError::Accept(_) => "error accepting new connection: "@ + cause@,
                AcceptError::PeerCreds(_) =>
                    "error getting credentials of incoming connection: "@ + cause@,
                AcceptError::UidUnknown => "could not determine UID of incoming connection"@,
                AcceptError::Unauthorized(uid) => "uid "@ + numeral(uid as nat)
                    + " is not authorized to access the admin socket"@,
            },
    {
        match self {
            AcceptError::Accept(_) => concat2("error accepting new connection: ", cause),
            AcceptError::PeerCreds(_) => concat2(
                "error getting credentials of incoming connection: ",
                cause,
            ),
            AcceptError::UidUnknown => "could not determine UID of incoming connection".to_owned(),
            AcceptError::Unauthorized(uid) => concat3(
                "uid ",
                decimal(*uid as u64).as_str(),
                " is not authorized to access the admin socket",
            ),
        }
    }
}

/// Whether a user ID is that of root.
///
/// Calls `nix::unistd::Uid::is_root`, which compares the ID with zero.
#[verifier::external_body]
fn is_root(uid: u32) -> (res: bool)
    ensures
        res == (uid == 0),
{
    nix::unistd::Uid::from_raw(uid).is_root()
}

/// What is known of an incoming connection.
#[derive(Debug)]
pub enum Incoming {
    /// It could not be accepted.
    Failed(std::io::Error),

    /// It was accepted, but the credentials of the other side could not be determined.
    NoCredentials(std::io::Error),

    /// It was accepted, and the credentials of the other side hold this effective user ID.
    User(Option<u32>),
}

/// Whether the user `uid` may use the admin socket of a process of the user `current_uid`.
pub open spec fn authorized(uid: u32, current_uid: u32) -> bool {
    uid == 0 || uid == current_uid
}

/// Root may use every admin socket, everybody may use that of their own process, and nobody else may.
/// Being authorized is a matter of the two users alone, and is mutual but for root.
pub proof fn only_root_and_the_same_user_are_authorized(uid: u32, current_uid: u32)
    ensures
        authorized(0, current_uid),
        authorized(uid, uid),
        uid != 0 && uid != current_uid ==> !authorized(uid, current_uid),
        uid != 0 && current_uid != 0 ==> authorized(uid, current_uid) == authorized(
            current_uid,
            uid,
        ),
{
}

/// Whether an incoming connection is served.
pub open spec fn is_served(incoming: Incoming, platform: Platform, current_uid: u32) -> bool {
    match incoming {
        Incoming::User(Some(uid)) => !platform.is_unix() || authorized(uid, current_uid),
        Incoming::User(None) => !platform.is_unix(),
        Incoming::Failed(_) | Incoming::NoCredentials(_) => false,
    }
}

/// On every platform but Windows, a connection is served only if it is known to be of root or of the
/// user of the process, and these are served. On Windows, every connection whose credentials could be
/// determined is.
pub proof fn only_known_users_are_served(
    incoming: Incoming,
    platform: Platform,
    current_uid: u32,
)
    ensures
        platform != Platform::Windows ==> (is_served(incoming, platform, current_uid) <==> incoming
            == Incoming::User(Some(0)) || incoming == Incoming::User(Some(current_uid))),
        platform == Platform::Windows ==> (is_served(incoming, platform, current_uid) <==> incoming
            is User),
{
}

/// Determine whether an incoming connection is served.
///
/// On Unix, only root and the user of the current process are served.
///
/// # Errors
///
/// Returns an error if there was an error accepting the connection, its credentials could not be
/// determined, or its UID is not root or does not match the current process's UID.
pub fn accept(incoming: Incoming, platform: Platform, current_uid: u32) -> (res: Result<
    (),
    AcceptError,
>)
    ensures
        res is Ok <==> is_served(incoming, platform, current_uid),
        match incoming {
            Incoming::Failed(error) => res == Err::<(), AcceptError>(AcceptError::Accept(error)),
            Incoming::NoCredentials(error) => res == Err::<(), AcceptError>(
                AcceptError::PeerCreds(error),
            ),
            Incoming::User(None) => res == if platform.is_unix() {
                Err::<(), AcceptError>(AcceptError::UidUnknown)
            } else {
                Ok(())
            },
            Incoming::User(Some(uid)) => res == if platform.is_unix() && !authorized(
                uid,
                current_uid,
            ) {
                Err::<(), AcceptError>(AcceptError::Unauthorized(uid))
            } else {
                Ok(())
            },
        },
{
    match incoming {
        Incoming::Failed(error) => Err(AcceptError::Accept(error)),
        Incoming::NoCredentials(error) => Err(AcceptError::PeerCreds(error)),
        Incoming::User(uid) => {
            if platform.is_unix() {
                match uid {
                    None => Err(AcceptError::UidUnknown),
                    Some(uid) => {
                        if !is_root(uid) && uid != current_uid {
                            Err(AcceptError::Unauthorized(uid))
                        } else {
                            Ok(())
                        }
                    },
                }
            } else {
                Ok(())
            }
        },
    }
}

/// Admin server for NovelNote: whether it accepts connections, and how many of them it is serving.
#[derive(Debug, Clone, Copy, PartialEq, Eq, Structural)]
pub struct AdminServer {
    /// Whether new connections are accepted.
    pub accepting: bool,

    /// The number of connections that have not been answered yet.
    pub active: usize,
}

/// What happens to the admin server.
#[derive(Debug, Clone, Copy, PartialEq, Eq, Structural)]
pub enum ServerEvent {
    /// A connection came in and is to be served.
    Accepted,

    /// A connection came in and is not to be served.
    Rejected,

    /// The server is asked to shut down.
    Cancelled,

    /// A connection was answered, or answering it failed.
    Answered,
}

/// What the admin server does next.
#[derive(Debug, Clone, Copy, PartialEq, Eq, Structural)]
pub enum ServerStep {
    /// Serve the connection, and go on accepting.
    Serve,

    /// Go on accepting.
    Accept,

    /// Accept no more connections, and wait for those that are being served.
    Wait,

    /// Stop.
    Stop,
}

impl Machine for AdminServer {
    type Input = ServerEvent;

    type Output = ServerStep;

    open spec fn next(self, input: ServerEvent) -> (AdminServer, ServerStep) {
        let accepting = self.accepting && input != ServerEvent::Cancelled;
        let active = if input == ServerEvent::Accepted && self.accepting {
            (self.active + 1) as usize
        } else if input == ServerEvent::Answered && self.active > 0 {
            (self.active - 1) as usize
        } else {
            self.active
        };
        let step = if accepting {
            if input == ServerEvent::Accepted {
                ServerStep::Serve
            } else {
                ServerStep::Accept
            }
        } else if active > 0 {
            ServerStep::Wait
        } else {
            ServerStep::Stop
        };
        (AdminServer { accepting, active }, step)
    }
}

impl AdminServer {
    /// How a server begins: it accepts connections and serves none.
    pub open spec fn start() -> AdminServer {
        AdminServer { accepting: true, active: 0 }
    }

    /// A server that was just bound to its socket.
    pub fn bind() -> (res: AdminServer)
        ensures
            res == (AdminServer { accepting: true, active: 0 }),
            res == AdminServer::start(),
    {
        AdminServer { accepting: true, active: 0 }
    }

    /// Take in what happened and determine what to do next.
    pub fn run(&mut self, event: ServerEvent) -> (res: ServerStep)
        requires
            old(self).active < usize::MAX,
        ensures
            (*final(self), res) == old(self).next(event),
    {
        match event {
            ServerEvent::Accepted => {
                if self.accepting {
                    self.active = self.active + 1;
                    return ServerStep::Serve;
                }
            },
            ServerEvent::Rejected => {},
            ServerEvent::Cancelled => {
                self.accepting = false;
            },
            ServerEvent::Answered => {
                if self.active > 0 {
                    self.active = self.active - 1;
                }
            },
        }
        if self.accepting {
            ServerStep::Accept
        } else if self.active > 0 {
            ServerStep::Wait
        } else {
            ServerStep::Stop
        }
    }
}

/// The number of times `event` occurs among `events`.
pub open spec fn occurrences(events: Seq<ServerEvent>, event: ServerEvent) -> nat
    decreases events.len(),
{
    if events.len() == 0 {
        0
    } else {
        occurrences(events.drop_last(), event) + if events.last() == event {
            1nat
        } else {
            0
        }
    }
}

/// Whether the events can happen to a server in this order: connections come in only before the
/// server is asked to shut down, no more of them are answered than came in, and they can be
/// counted.
pub open spec fn possible(events: Seq<ServerEvent>) -> bool {
    forall|n: int|
        #![trigger events.take(n)]
        0 <= n <= events.len() ==> {
            let so_far = events.take(n);
            &&& occurrences(so_far, ServerEvent::Answered) <= occurrences(
                so_far,
                ServerEvent::Accepted,
            )
            &&& occurrences(so_far, ServerEvent::Accepted) < usize::MAX
            &&& n < events.len() && events[n] == ServerEvent::Accepted ==> !so_far.contains(
                ServerEvent::Cancelled,
            )
        }
}

/// The server accepts connections until it is asked to shut down, and it knows how many of them
/// have not been answered.
pub proof fn server_keeps_count(events: Seq<ServerEvent>)
    requires
        possible(events),
    ensures
        ({
            let server = state_after(AdminServer::start(), events);
            &&& server.accepting == !events.contains(ServerEvent::Cancelled)
            &&& server.active + occurrences(events, ServerEvent::Answered) == occurrences(
                events,
                ServerEvent::Accepted,
            )
        }),
    decreases events.len(),
{
    let start = AdminServer::start();
    if events.len() > 0 {
        let before = events.drop_last();
        assert forall|n: int| 0 <= n <= before.len() implies #[trigger] before.take(n)
            == events.take(n) by {
            assert(before.take(n) =~= events.take(n));
        }
        assert(possible(before)) by {
            assert forall|n: int| #![trigger before.take(n)] 0 <= n <= before.len() implies {
                let so_far = before.take(n);
                &&& occurrences(so_far, ServerEvent::Answered) <= occurrences(
                    so_far,
                    ServerEvent::Accepted,
                )
                &&& occurrences(so_far, ServerEvent::Accepted) < usize::MAX
                &&& n < before.len() && before[n] == ServerEvent::Accepted ==> !so_far.contains(
                    ServerEvent::Cancelled,
                )
            } by {
                assert(before.take(n) == events.take(n));
            }
        }
        server_keeps_count(before);
        assert(events.take(events.len() as int) =~= events);
        assert(events.take(before.len() as int) =~= before);
        assert(events.contains(ServerEvent::Cancelled) <==> before.contains(ServerEvent::Cancelled)
            || events.last() == ServerEvent::Cancelled) by {
            if before.contains(ServerEvent::Cancelled) {
                let i = choose|i: int| 0 <= i < before.len() && before[i] == ServerEvent::Cancelled;
                assert(events[i] == ServerEvent::Cancelled);
            }
            if events.last() == ServerEvent::Cancelled {
                assert(events[events.len() - 1] == ServerEvent::Cancelled);
            }
            if events.contains(ServerEvent::Cancelled) && events.last() != ServerEvent::Cancelled {
                let i = choose|i: int| 0 <= i < events.len() && events[i] == ServerEvent::Cancelled;
                assert(before[i] == ServerEvent::Cancelled);
            }
        }
    } else {
        assert(!events.contains(ServerEvent::Cancelled));
    }
}

/// The server stops exactly when it has been asked to shut down and every connection that it
/// accepted has been answered.
pub proof fn server_stops_when_all_are_answered(events: Seq<ServerEvent>)
    requires
        possible(events),
        events.len() > 0,
    ensures
        (last_output(AdminServer::start(), events) == ServerStep::Stop) <==> {
            &&& events.contains(ServerEvent::Cancelled)
            &&& occurrences(events, ServerEvent::Answered) == occurrences(
                events,
                ServerEvent::Accepted,
            )
        },
{
    server_keeps_count(events);
}

/// What a server does: it serves each connection that comes in before it is asked to shut down, goes
/// on accepting after anything else, and once it was asked waits as long as a connection is not
/// answered.
pub proof fn server_serves_what_comes_in(events: Seq<ServerEvent>)
    requires
        possible(events),
        events.len() > 0,
    ensures
        ({
            let cancelled = events.contains(ServerEvent::Cancelled);
            let step = last_output(AdminServer::start(), events);
            &&& step == ServerStep::Serve <==> !cancelled && events.last() == ServerEvent::Accepted
            &&& step == ServerStep::Accept <==> !cancelled && events.last() != ServerEvent::Accepted
            &&& step == ServerStep::Wait <==> cancelled && occurrences(
                events,
                ServerEvent::Answered,
            ) < occurrences(events, ServerEvent::Accepted)
        }),
{
    server_keeps_count(events);
}

/// No connection is served after the server has been asked to shut down, whatever happens.
pub proof fn no_connection_is_served_after_cancellation(
    server: AdminServer,
    events: Seq<ServerEvent>,
)
    requires
        events.len() > 0,
        events.drop_last().contains(ServerEvent::Cancelled),
    ensures
        last_output(server, events) != ServerStep::Serve,
{
    lemma_cancelled(server, events.drop_last());
}

proof fn lemma_cancelled(server: AdminServer, events: Seq<ServerEvent>)
    requires
        events.contains(ServerEvent::Cancelled),
    ensures
        !state_after(server, events).accepting,
    decreases events.len(),
{
    let before = events.drop_last();
    if events.last() != ServerEvent::Cancelled {
        let i = choose|i: int| 0 <= i < events.len() && events[i] == ServerEvent::Cancelled;
        assert(before[i] == ServerEvent::Cancelled);
        lemma_cancelled(server, before);
    }
}

/// Error returned when handling a connection fails.
#[derive(Debug)]
pub enum HandleConnectionError {
    /// Error while reading from the connection.
    Read(std::io::Error),

    /// Error deserializing the message from the client.
    Deserialize(DeserializeError),

    /// Error while writing to the connection.
    Write(std::io::Error),
}

impl HandleConnectionError {
    /// Error while deserializing.
    pub fn from_deserialize(error: rkyv::rancor::Error) -> (res: HandleConnectionError)
        ensures
            res == HandleConnectionError::Deserialize(DeserializeError(error)),
    {
        HandleConnectionError::Deserialize(DeserializeError(error))
    }

    /// Describe the error, given the message of the error that caused it.
    pub fn message(&self, cause: &str) -> (res: String)
        ensures
            res@ == match *self {
                HandleConnectionError::Read(_) => "error reading from connection: "@ + cause@,
                HandleConnectionError::Deserialize(_) => "error deserializing message"@,
                HandleConnectionError::Write(_) => "error writing to connection: "@ + cause@,
            },
    {
        match self {
            HandleConnectionError::Read(_) => concat2("error reading from connection: ", cause),
            HandleConnectionError::Deserialize(_) => "error deserializing message".to_owned(),
            HandleConnectionError::Write(_) => concat2("error writing to connection: ", cause),
        }
    }
}

/// How far the handling of an incoming connection has come.
#[derive(Debug, Clone, Copy, PartialEq, Eq, Structural)]
pub enum HandleConnection {
    /// The message is being read.
    Reading,

    /// The message is being deserialized.
    Deserializing,

    /// The response is being determined and serialized.
    Responding,

    /// The response is being written.
    Writing,

    /// The connection was answered, or that failed.
    Finished,
}

/// What happens while a connection is handled.
#[derive(Debug)]
pub enum HandleEvent {
    /// The bytes of the message were read, or not.
    Read(Result<Vec<u8>, std::io::Error>),

    /// The message was deserialized, or not.
    Deserialized(Result<Message, rkyv::rancor::Error>),

    /// The response was determined and serialized.
    Responded(Vec<u8>),

    /// The response was written, or not.
    Written(Result<(), std::io::Error>),
}

/// What to do next to handle a connection.
#[derive(Debug)]
pub enum HandleStep {
    /// Deserialize the message.
    Deserialize(Vec<u8>),

    /// Determine the response to the message, and serialize it.
    Respond(Message),

    /// Write the response.
    Write(Vec<u8>),

    /// Stop, with this result.
    Finish(Result<(), HandleConnectionError>),

    /// Nothing, what happened was not waited for.
    Idle,
}

impl Machine for HandleConnection {
    type Input = HandleEvent;

    type Output = HandleStep;

    open spec fn next(self, input: HandleEvent) -> (HandleConnection, HandleStep) {
        match (self, input) {
            (HandleConnection::Reading, HandleEvent::Read(Ok(bytes))) => (
                HandleConnection::Deserializing,
                HandleStep::Deserialize(bytes),
            ),
            (HandleConnection::Reading, HandleEvent::Read(Err(error))) => (
                HandleConnection::Finished,
                HandleStep::Finish(Err(HandleConnectionError::Read(error))),
            ),
            (HandleConnection::Deserializing, HandleEvent::Deserialized(Ok(message))) => (
                HandleConnection::Responding,
                HandleStep::Respond(message),
            ),
            (HandleConnection::Deserializing, HandleEvent::Deserialized(Err(error))) => (
                HandleConnection::Finished,
                HandleStep::Finish(
                    Err(HandleConnectionError::Deserialize(DeserializeError(error))),
                ),
            ),
            (HandleConnection::Responding, HandleEvent::Responded(response)) => (
                HandleConnection::Writing,
                HandleStep::Write(response),
            ),
            (HandleConnection::Writing, HandleEvent::Written(Ok(()))) => (
                HandleConnection::Finished,
                HandleStep::Finish(Ok(())),
            ),
            (HandleConnection::Writing, HandleEvent::Written(Err(error))) => (
                HandleConnection::Finished,
                HandleStep::Finish(Err(HandleConnectionError::Write(error))),
            ),
            _ => (self, HandleStep::Idle),
        }
    }
}

impl HandleConnection {
    /// How the handling of a connection begins.
    pub open spec fn start() -> HandleConnection {
        HandleConnection::Reading
    }

    /// Begin to handle a connection. Its message is to be read.
    pub fn new() -> (res: HandleConnection)
        ensures
            res == HandleConnection::Reading,
            res == HandleConnection::start(),
    {
        HandleConnection::Reading
    }

    /// Take in what happened and determine what to do next.
    pub fn handle(&mut self, event: HandleEvent) -> (res: HandleStep)
        ensures
            (*final(self), res) == old(self).next(event),
    {
        match (*self, event) {
            (HandleConnection::Reading, HandleEvent::Read(Ok(bytes))) => {
                *self = HandleConnection::Deserializing;
                HandleStep::Deserialize(bytes)
            },
            (HandleConnection::Reading, HandleEvent::Read(Err(error))) => {
                *self = HandleConnection::Finished;
                HandleStep::Finish(Err(HandleConnectionError::Read(error)))
            },
            (HandleConnection::Deserializing, HandleEvent::Deserialized(Ok(message))) => {
                *self = HandleConnection::Responding;
                HandleStep::Respond(message)
            },
            (HandleConnection::Deserializing, HandleEvent::Deserialized(Err(error))) => {
                *self = HandleConnection::Finished;
                HandleStep::Finish(Err(HandleConnectionError::from_deserialize(error)))
            },
            (HandleConnection::Responding, HandleEvent::Responded(response)) => {
                *self = HandleConnection::Writing;
                HandleStep::Write(response)
            },
            (HandleConnection::Writing, HandleEvent::Written(Ok(()))) => {
                *self = HandleConnection::Finished;
                HandleStep::Finish(Ok(()))
            },
            (HandleConnection::Writing, HandleEvent::Written(Err(error))) => {
                *self = HandleConnection::Finished;
                HandleStep::Finish(Err(HandleConnectionError::Write(error)))
            },
            _ => HandleStep::Idle,
        }
    }
}

/// A connection whose message is read and deserialized is handled well once the response to that
/// message is written.
pub proof fn handled_when_the_response_is_written(
    bytes: Vec<u8>,
    message: Message,
    response: Vec<u8>,
)
    ensures
        ({
            let events = seq![
                HandleEvent::Read(Ok(bytes)),
                HandleEvent::Deserialized(Ok(message)),
                HandleEvent::Responded(response),
                HandleEvent::Written(Ok(())),
            ];
            let start = HandleConnection::start();
            &&& last_output(start, events.take(1)) == HandleStep::Deserialize(bytes)
            &&& last_output(start, events.take(2)) == HandleStep::Respond(message)
            &&& last_output(start, events.take(3)) == HandleStep::Write(response)
            &&& last_output(start, events) == HandleStep::Finish(Ok(()))
        }),
{
    let events = seq![
        HandleEvent::Read(Ok(bytes)),
        HandleEvent::Deserialized(Ok(message)),
        HandleEvent::Responded(response),
        HandleEvent::Written(Ok(())),
    ];
    reveal_with_fuel(state_after, 4);
    assert(events.take(1).drop_last() =~= seq![]);
    assert(events.take(2).drop_last() =~= events.take(1));
    assert(events.take(3).drop_last() =~= events.take(2));
    assert(events.drop_last() =~= events.take(3));
}

/// Whether some event tells that a message was read.
pub open spec fn was_read(events: Seq<HandleEvent>) -> bool {
    exists|i: int| 0 <= i < events.len() && (#[trigger] events[i] matches HandleEvent::Read(Ok(_)))
}

/// Whether some event tells that a message was deserialized.
pub open spec fn was_deserialized(events: Seq<HandleEvent>) -> bool {
    exists|i: int|
        0 <= i < events.len() && (#[trigger] events[i] matches HandleEvent::Deserialized(Ok(_)))
}

/// Whether some event tells that a response was determined.
pub open spec fn was_responded(events: Seq<HandleEvent>) -> bool {
    exists|i: int| 0 <= i < events.len() && (#[trigger] events[i] is Responded)
}

proof fn lemma_handled_so_far(events: Seq<HandleEvent>)
    ensures
        match state_after(HandleConnection::start(), events) {
            HandleConnection::Reading => true,
            HandleConnection::Deserializing => was_read(events),
            HandleConnection::Responding => was_read(events) && was_deserialized(events),
            HandleConnection::Writing => was_read(events) && was_deserialized(events)
                && was_responded(events),
            HandleConnection::Finished => true,
        },
    decreases events.len(),
{
    if events.len() > 0 {
        let before = events.drop_last();
        let last = events.len() - 1;
        lemma_handled_so_far(before);
        if was_read(before) {
            let i = choose|i: int|
                0 <= i < before.len() && (#[trigger] before[i] matches HandleEvent::Read(Ok(_)));
            assert(events[i] matches HandleEvent::Read(Ok(_)));
        }
        if was_deserialized(before) {
            let i = choose|i: int|
                0 <= i < before.len() && (#[trigger] before[i] matches HandleEvent::Deserialized(
                    Ok(_),
                ));
            assert(events[i] matches HandleEvent::Deserialized(Ok(_)));
        }
        if was_responded(before) {
            let i = choose|i: int| 0 <= i < before.len() && (#[trigger] before[i] is Responded);
            assert(events[i] is Responded);
        }
        if events[last] matches HandleEvent::Read(Ok(_)) {
            assert(was_read(events));
        }
        if events[last] matches HandleEvent::Deserialized(Ok(_)) {
            assert(was_deserialized(events));
        }
        if events[last] is Responded {
            assert(was_responded(events));
        }
    }
}

/// A connection does not count as handled unless its message was read and deserialized, the
/// response was determined, and just now written.
pub proof fn not_handled_before_the_response_is_written(events: Seq<HandleEvent>)
    requires
        events.len() > 0,
        last_output(HandleConnection::start(), events) matches HandleStep::Finish(Ok(_)),
    ensures
        was_read(events),
        was_deserialized(events),
        was_responded(events),
        events.last() matches HandleEvent::Written(Ok(_)),
{
    let before = events.drop_last();
    lemma_handled_so_far(before);
    let i = choose|i: int|
        0 <= i < before.len() && (#[trigger] before[i] matches HandleEvent::Read(Ok(_)));
    assert(events[i] matches HandleEvent::Read(Ok(_)));
    let j = choose|j: int|
        0 <= j < before.len() && (#[trigger] before[j] matches HandleEvent::Deserialized(Ok(_)));
    assert(events[j] matches HandleEvent::Deserialized(Ok(_)));
    let k = choose|k: int| 0 <= k < before.len() && (#[trigger] before[k] is Responded);
    assert(events[k] is Responded);
}

/// What is asked for to handle a connection, given what was asked for before and what came of it: the
/// message is read, just that is deserialized, just that is answered, and just the answer is written.
/// A failure ends it with an error that tells what failed, and why.
pub proof fn handling_follows_its_events(events: Seq<HandleEvent>, event: HandleEvent)
    ensures
        ({
            let next = last_output(HandleConnection::start(), events.push(event));
            if events.len() == 0 {
                match event {
                    HandleEvent::Read(Ok(bytes)) => next == HandleStep::Deserialize(bytes),
                    HandleEvent::Read(Err(error)) => next == HandleStep::Finish(
                        Err(HandleConnectionError::Read(error)),
                    ),
                    _ => next is Idle,
                }
            } else {
                match (last_output(HandleConnection::start(), events), event) {
                    (HandleStep::Deserialize(_), HandleEvent::Deserialized(Ok(message))) => next
                        == HandleStep::Respond(message),
                    (HandleStep::Deserialize(_), HandleEvent::Deserialized(Err(error))) => next
                        == HandleStep::Finish(
                        Err(HandleConnectionError::Deserialize(DeserializeError(error))),
                    ),
                    (HandleStep::Respond(_), HandleEvent::Responded(response)) => next
                        == HandleStep::Write(response),
                    (HandleStep::Write(_), HandleEvent::Written(Ok(_))) => next
                        matches HandleStep::Finish(Ok(_)),
                    (HandleStep::Write(_), HandleEvent::Written(Err(error))) => next
                        == HandleStep::Finish(Err(HandleConnectionError::Write(error))),
                    (HandleStep::Idle, _) => true,
                    _ => next is Idle,
                }
            }
        }),
{
    lemma_told_one_more(HandleConnection::start(), events, event);
}

/// What is not waited for changes nothing.
pub proof fn unexpected_event_changes_nothing(
    events: Seq<HandleEvent>,
    unexpected: HandleEvent,
    event: HandleEvent,
)
    requires
        last_output(HandleConnection::start(), events.push(unexpected)) is Idle,
    ensures
        last_output(HandleConnection::start(), events.push(unexpected).push(event)) == last_output(
            HandleConnection::start(),
            events.push(event),
        ),
{
    lemma_told_one_more(HandleConnection::start(), events, unexpected);
    lemma_told_one_more(HandleConnection::start(), events, event);
    lemma_told_one_more(HandleConnection::start(), events.push(unexpected), event);
}

} // verus!
