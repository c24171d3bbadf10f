use novelnote::admin::client::{
    AdminClient, CommunicationError, HealthCheckError, ReceiveError, RequestError, RequestEvent,
    RequestResponse, RequestStep, SendError,
};
use novelnote::admin::connection::{ClosedError, Connection, MAX_MESSAGE_LEN};
use novelnote::admin::message::{
    respond_to_backup, respond_to_health_check, BackupError, DatabaseClosed, DeserializeError,
    Message, Question, ResponseError,
};
use novelnote::admin::server::{
    accept, AcceptError, AdminServer, HandleConnection, HandleConnectionError, HandleEvent,
    HandleStep, Incoming, ServerEvent, ServerStep,
};
use novelnote::admin::socket::{ConnectionError, ListenerOptions, OpeningStep, SocketOpening};
use novelnote::path::{FsPath, Platform};
use rkyv::rancor::Source;

fn io_error() -> std::io::Error {
    std::io::Error::other("broken")
}

fn rancor_error() -> rkyv::rancor::Error {
    rkyv::rancor::Error::new(io_error())
}

#[test]
fn message_is_preceded_by_its_length() {
    let connection = Connection::new();
    assert_eq!(connection.write(b"").expect("short"), [0, 0, 0, 0]);
    assert_eq!(connection.write(b"abc").expect("short"), [3, 0, 0, 0, b'a', b'b', b'c']);
    let long = vec![7; 0x1234];
    let written = connection.write(&long).expect("short enough");
    assert_eq!(written[..4], [0x34, 0x12, 0, 0]);
    assert_eq!(written[4..], long);
}

#[test]
fn what_is_written_can_be_read() {
    let writer = Connection::new();
    let mut reader = Connection::new();
    for message in [&b"first"[..], b"", b"third"] {
        reader.receive(&writer.write(message).expect("short"));
    }
    assert_eq!(reader.read().expect("valid").as_deref(), Some(&b"first"[..]));
    assert_eq!(reader.read().expect("valid").as_deref(), Some(&b""[..]));
    assert_eq!(reader.read().expect("valid").as_deref(), Some(&b"third"[..]));
    assert_eq!(reader.read().expect("valid"), None);
}

#[test]
fn message_is_read_once_it_is_whole() {
    let bytes = Connection::new().write(b"hello").expect("short");
    let mut reader = Connection::new();
    for byte in &bytes[..bytes.len() - 1] {
        reader.receive(&[*byte]);
        assert_eq!(reader.read().expect("valid"), None);
    }
    reader.receive(&bytes[bytes.len() - 1..]);
    reader.receive(&[1]);
    assert_eq!(reader.read().expect("valid").as_deref(), Some(&b"hello"[..]));
    assert_eq!(reader.read().expect("valid"), None);
    assert_eq!(reader.closed(), ClosedError::BytesRemaining);
}

#[test]
fn messages_of_more_than_8_mib_are_refused() {
    let connection = Connection::new();
    let message = vec![0; MAX_MESSAGE_LEN + 1];
    assert!(connection.write(&message).is_err());
    let written = connection.write(&message[1..]).expect("8 MiB");
    assert_eq!(written.len(), MAX_MESSAGE_LEN + 4);

    let mut reader = Connection::new();
    reader.receive(&written);
    assert_eq!(reader.read().expect("8 MiB").map(|message| message.len()), Some(MAX_MESSAGE_LEN));

    let mut reader = Connection::new();
    reader.receive(&[1, 0, 0x80, 0]);
    assert!(reader.read().is_err());
    reader.receive(&[1, 2, 3]);
    assert!(reader.read().is_err());
}

#[test]
fn closed_socket_is_an_error() {
    let mut connection = Connection::new();
    assert_eq!(connection.closed(), ClosedError::Unexpectedly);
    assert_eq!(connection.closed().message(), "local socket closed unexpectedly");
    connection.receive(&[5, 0]);
    assert_eq!(connection.closed(), ClosedError::BytesRemaining);
    assert_eq!(connection.closed().message(), "bytes remaining on stream");
    connection.receive(&[0, 0]);
    assert_eq!(connection.closed(), ClosedError::Unexpectedly);
    connection.receive(&[1]);
    assert_eq!(connection.closed(), ClosedError::BytesRemaining);
}

/// Send a message from a client to a server and the response back.
fn exchange(request: &[u8], respond: impl Fn(&[u8]) -> Vec<u8>) -> Vec<u8> {
    let mut client = AdminClient::connect();
    let mut server = Connection::new();

    server.receive(&client.send(request).expect("short"));
    let mut handling = HandleConnection::new();
    let read = server.read().expect("valid").expect("whole");
    let HandleStep::Deserialize(bytes) = handling.handle(HandleEvent::Read(Ok(read))) else {
        panic!("not deserialized");
    };
    let response = respond(&bytes);
    let step = handling.handle(HandleEvent::Deserialized(Ok(Message::HealthCheck)));
    assert!(matches!(step, HandleStep::Respond(Message::HealthCheck)));
    let HandleStep::Write(response) = handling.handle(HandleEvent::Responded(response)) else {
        panic!("not written");
    };
    let sent = server.write(&response).expect("short");
    let step = handling.handle(HandleEvent::Written(Ok(())));
    assert!(matches!(step, HandleStep::Finish(Ok(()))));

    assert!(client.receive(&sent[..2]).expect("valid").is_none());
    client.receive(&sent[2..]).expect("valid").expect("whole")
}

#[test]
fn health_check() {
    let response = exchange(b"health check", |request| {
        assert_eq!(request, b"health check");
        match respond_to_health_check(true) {
            Ok(()) => b"open".to_vec(),
            Err(DatabaseClosed) => b"closed".to_vec(),
        }
    });
    let response = match &response[..] {
        b"open" => Ok(()),
        _ => Err(DatabaseClosed),
    };
    assert!(AdminClient::health_check(Ok(response)).is_ok());
}

#[test]
fn health_check_fails_when_the_database_is_closed() {
    let response = respond_to_health_check(false);
    assert_eq!(response, Err(DatabaseClosed));
    let error = AdminClient::health_check(Ok(response)).expect_err("closed");
    assert!(matches!(error, HealthCheckError::DatabaseClosed));
    assert_eq!(
        error.message(),
        "server's database connection is closed, server restart recommended"
    );
    let error = AdminClient::health_check(Err(CommunicationError::Send(SendError(io_error()))))
        .expect_err("not sent");
    assert!(matches!(error, HealthCheckError::Communication(CommunicationError::Send(_))));
    assert_eq!(error.message(), "error communicating with admin socket");
}

#[test]
fn client_learns_what_came_of_a_backup() {
    assert!(AdminClient::backup(Ok(respond_to_backup(Ok(())))).is_ok());

    let response = respond_to_backup(Err(BackupError::Closed));
    assert!(matches!(response, Err(ResponseError::DatabaseClosed)));
    let error = AdminClient::backup(Ok(response)).expect_err("closed");
    assert!(matches!(error, RequestError::DatabaseClosed));
    assert_eq!(error.message(), "database connection is closed, server restart recommended");

    let failure = BackupError::Database { error_message: "disk full".to_owned() };
    let error = AdminClient::backup(Ok(respond_to_backup(Err(failure)))).expect_err("failed");
    assert_eq!(error.message(), "database error: disk full");

    let error = CommunicationError::Receive(ReceiveError(io_error()));
    let error = AdminClient::backup(Err(error)).expect_err("not received");
    assert_eq!(error.message(), "error communicating with admin socket");
}

#[test]
fn messages_ask_the_database() {
    assert!(matches!(Message::HealthCheck.question(), Question::IsOpen));
    let message = Message::Backup { path: "/b".to_owned() };
    assert!(matches!(message.question(), Question::Backup(path) if path == "/b"));
}

#[test]
fn request_is_sent_received_and_deserialized() {
    let mut request = RequestResponse::new();
    assert!(matches!(request.step(RequestEvent::Received(Ok(vec![]))), RequestStep::Idle));
    assert!(matches!(request.step(RequestEvent::Sent(Ok(()))), RequestStep::Receive));
    let step = request.step(RequestEvent::Received(Ok(vec![1, 2])));
    assert!(matches!(step, RequestStep::Deserialize(bytes) if bytes == [1, 2]));
    let step = request.step(RequestEvent::Deserialized(Ok(())));
    assert!(matches!(step, RequestStep::Finish(Ok(()))));
    assert!(matches!(request.step(RequestEvent::Sent(Ok(()))), RequestStep::Idle));
}

#[test]
fn failures_of_a_request_are_told_apart() {
    let error = SendError(io_error());
    assert_eq!(error.message(), "error sending message to admin server");
    let mut request = RequestResponse::Sending;
    let RequestStep::Finish(Err(error)) = request.step(RequestEvent::Sent(Err(error))) else {
        panic!("not finished");
    };
    assert_eq!(error.message(), "error sending message");

    let error = ReceiveError(io_error());
    assert_eq!(error.message(), "error receiving response from admin server");
    let mut request = RequestResponse::Receiving;
    let RequestStep::Finish(Err(error)) = request.step(RequestEvent::Received(Err(error))) else {
        panic!("not finished");
    };
    assert_eq!(error.message(), "error receiving response");

    let mut request = RequestResponse::Deserializing;
    let step = request.step(RequestEvent::Deserialized(Err(rancor_error())));
    let RequestStep::Finish(Err(error)) = step else {
        panic!("not finished");
    };
    assert_eq!(error.message(), "error deserializing response");
    let CommunicationError::Deserialize(error) = error else {
        panic!("another error");
    };
    assert_eq!(error.message(), "error while deserializing");
}

#[test]
fn client_takes_no_messages_of_more_than_8_mib() {
    let mut client = AdminClient::connect();
    assert!(client.send(&vec![0; MAX_MESSAGE_LEN + 1]).is_err());
    assert_eq!(client.closed(), ClosedError::Unexpectedly);
    assert!(client.receive(&[0xff, 0xff, 0xff]).expect("incomplete").is_none());
    assert_eq!(client.closed(), ClosedError::BytesRemaining);
    assert!(client.receive(&[0xff]).is_err());
}

#[test]
fn only_root_and_the_same_user_are_served() {
    let unix = Platform::Linux;
    assert!(accept(Incoming::User(Some(0)), unix, 1000).is_ok());
    assert!(accept(Incoming::User(Some(1000)), unix, 1000).is_ok());
    let error = accept(Incoming::User(Some(1001)), unix, 1000).expect_err("another user");
    assert!(matches!(error, AcceptError::Unauthorized(1001)));
    assert_eq!(error.message(""), "uid 1001 is not authorized to access the admin socket");
    let error = accept(Incoming::User(None), unix, 1000).expect_err("unknown");
    assert!(matches!(error, AcceptError::UidUnknown));
    assert_eq!(error.message(""), "could not determine UID of incoming connection");
    assert!(accept(Incoming::User(None), Platform::Windows, 0).is_ok());
    assert!(accept(Incoming::User(Some(7)), Platform::Windows, 0).is_ok());
}

#[test]
fn failures_to_accept_are_told_apart() {
    let error = accept(Incoming::Failed(io_error()), Platform::Linux, 0).expect_err("failed");
    assert!(matches!(error, AcceptError::Accept(_)));
    assert_eq!(error.message("no luck"), "error accepting new connection: no luck");
    let error =
        accept(Incoming::NoCredentials(io_error()), Platform::Windows, 0).expect_err("failed");
    assert!(matches!(error, AcceptError::PeerCreds(_)));
    assert_eq!(error.message("no luck"), "error getting credentials of incoming connection: no luck");
}

#[test]
fn server_stops_once_all_connections_are_answered() {
    let mut server = AdminServer::bind();
    assert_eq!(server.run(ServerEvent::Accepted), ServerStep::Serve);
    assert_eq!(server.run(ServerEvent::Rejected), ServerStep::Accept);
    assert_eq!(server.run(ServerEvent::Accepted), ServerStep::Serve);
    assert_eq!(server.run(ServerEvent::Answered), ServerStep::Accept);
    assert_eq!(server.run(ServerEvent::Cancelled), ServerStep::Wait);
    assert_eq!(server.run(ServerEvent::Accepted), ServerStep::Wait);
    assert_eq!(server.active, 1);
    assert_eq!(server.run(ServerEvent::Answered), ServerStep::Stop);
}

#[test]
fn idle_server_stops_at_once() {
    let mut server = AdminServer::bind();
    assert_eq!(server.run(ServerEvent::Cancelled), ServerStep::Stop);
}

#[test]
fn failures_of_handling_are_told_apart() {
    let mut handling = HandleConnection::new();
    let step = handling.handle(HandleEvent::Read(Err(io_error())));
    let HandleStep::Finish(Err(error)) = step else {
        panic!("not finished");
    };
    assert_eq!(error.message("no luck"), "error reading from connection: no luck");

    let mut handling = HandleConnection::Deserializing;
    let step = handling.handle(HandleEvent::Deserialized(Err(rancor_error())));
    let HandleStep::Finish(Err(error)) = step else {
        panic!("not finished");
    };
    assert_eq!(error.message("no luck"), "error deserializing message");
    assert!(matches!(
        error,
        HandleConnectionError::Deserialize(DeserializeError(_))
    ));

    let mut handling = HandleConnection::Writing;
    let step = handling.handle(HandleEvent::Written(Err(io_error())));
    let HandleStep::Finish(Err(error)) = step else {
        panic!("not finished");
    };
    assert_eq!(error.message("no luck"), "error writing to connection: no luck");
}

#[test]
fn socket_is_named_and_then_opened() {
    let mut opening = SocketOpening::new(FsPath::new("/run/a.sock"));
    assert!(matches!(opening.step(Ok(())), OpeningStep::Bind));
    assert!(matches!(opening.step(Ok(())), OpeningStep::Finish(Ok(()))));
    assert!(matches!(opening.step(Ok(())), OpeningStep::Idle));
}

#[test]
fn failures_of_opening_a_socket_are_told_apart() {
    let mut opening = SocketOpening::new(FsPath::new("/run/a.sock"));
    let OpeningStep::Finish(Err(error)) = opening.step(Err(io_error())) else {
        panic!("not finished");
    };
    assert!(matches!(error, ConnectionError::InvalidPath { .. }));
    assert_eq!(
        error.message(Platform::Linux),
        "path `/run/a.sock` is not supported for socket communication"
    );

    let mut opening = SocketOpening::new(FsPath::new("/run/a.sock"));
    opening.step(Ok(()));
    let OpeningStep::Finish(Err(error)) = opening.step(Err(io_error())) else {
        panic!("not finished");
    };
    assert!(matches!(error, ConnectionError::Bind { .. }));
    assert_eq!(error.message(Platform::Linux), "error binding to path `/run/a.sock`");
}

#[test]
fn socket_may_be_used_by_its_group() {
    for platform in [Platform::Linux, Platform::FreeBsd, Platform::OpenBsd] {
        assert_eq!(
            ListenerOptions::new(platform),
            ListenerOptions { overwrite: true, mode: Some(0o750) }
        );
    }
    for platform in [Platform::MacOs, Platform::OtherUnix, Platform::Windows] {
        assert_eq!(
            ListenerOptions::new(platform),
            ListenerOptions { overwrite: true, mode: None }
        );
    }
}
