//! Admin socket configuration.

use crate::path::{
    is_component, joined, lemma_plain_name, shown, FsPath, Platform, ProjectDirs,
};
use crate::text::concat3;
use crate::timeout::{parsed_span, Span, Timeout, TimeoutError, WaitTime};
use crate::trace::{asked, last_output, lemma_told_one_more, state_after, Machine};
use vstd::prelude::*;
use vstd::utf8::*;

verus! {

/// Required prefix for the named pipe namespace on Windows.
pub const PIPE_PREFIX: &'static str = "\\\\.\\pipe\\";

/// Name of the pipe on Windows.
pub const PIPE_NAME: &'static str = "NovelNote_Admin";

/// Name of the socket file on Unix.
pub const SOCKET_FILE_NAME: &'static str = "novelnote_admin.sock";

/// Admin socket connection path.
///
/// Must start with `\\.\pipe\` on Windows.
#[derive(Debug)]
pub struct AdminSocketPath {
    path: FsPath,
}

impl View for AdminSocketPath {
    type V = Seq<u8>;

    closed spec fn view(&self) -> Seq<u8> {
        self.path@
    }
}

/// Whether the admin socket may be at `path`.
pub open spec fn is_socket_path(path: Seq<u8>, platform: Platform) -> bool {
    !platform.is_unix() ==> encode_utf8(PIPE_PREFIX@).is_prefix_of(path)
}

/// The directory in which the socket is placed on Unix, unless its path is configured.
pub open spec fn socket_directory(dirs: ProjectDirs) -> Seq<u8> {
    match (dirs.runtime_dir, dirs.state_dir) {
        (Some(runtime_dir), _) => runtime_dir@,
        (None, Some(state_dir)) => state_dir@,
        (None, None) => dirs.data_local_dir@,
    }
}

/// The path of the admin socket, unless it is configured.
pub open spec fn default_socket_path(dirs: ProjectDirs, platform: Platform) -> Seq<u8> {
    if platform.is_unix() {
        joined(socket_directory(dirs), encode_utf8(SOCKET_FILE_NAME@), platform)
    } else {
        joined(encode_utf8(PIPE_PREFIX@), encode_utf8(PIPE_NAME@), platform)
    }
}

/// Error returned when a path is not one that the admin socket may be at.
#[derive(Debug, Clone, Copy, PartialEq, Eq, Structural)]
pub struct SocketPathError;

impl SocketPathError {
    /// Describe the error.
    pub fn message(&self) -> (res: String)
        ensures
            res@ == "admin socket path must start with `"@ + PIPE_PREFIX@ + "` on Windows"@,
    {
        concat3("admin socket path must start with `", PIPE_PREFIX, "` on Windows")
    }
}

proof fn lemma_names()
    ensures
        is_component(encode_utf8(PIPE_NAME@)),
        is_component(encode_utf8(SOCKET_FILE_NAME@)),
{
    reveal_strlit("NovelNote_Admin");
    reveal_strlit("novelnote_admin.sock");
    lemma_plain_name(PIPE_NAME@);
    lemma_plain_name(SOCKET_FILE_NAME@);
}

impl AdminSocketPath {
    /// Default path for the admin socket.
    pub fn default(dirs: &ProjectDirs, platform: Platform) -> (res: AdminSocketPath)
        ensures
            res@ == default_socket_path(*dirs, platform),
    {
        proof {
            lemma_names();
        }
        if platform.is_unix() {
            let directory = match (&dirs.runtime_dir, &dirs.state_dir) {
                (Some(runtime_dir), _) => runtime_dir,
                (None, Some(state_dir)) => state_dir,
                (None, None) => &dirs.data_local_dir,
            };
            AdminSocketPath { path: directory.join(SOCKET_FILE_NAME, platform) }
        } else {
            AdminSocketPath { path: FsPath::new(PIPE_PREFIX).join(PIPE_NAME, platform) }
        }
    }

    /// Whether the default path is in the state directory because there is no runtime directory.
    pub fn default_falls_back_to_state_dir(dirs: &ProjectDirs, platform: Platform) -> (res: bool)
        ensures
            res <==> platform.is_unix() && dirs.runtime_dir is None && dirs.state_dir is Some,
    {
        platform.is_unix() && dirs.runtime_dir.is_none() && dirs.state_dir.is_some()
    }

    /// Take `path` for the admin socket.
    ///
    /// # Errors
    ///
    /// Returns an error if the path does not start with `\\.\pipe\` on Windows.
    pub fn try_from(path: FsPath, platform: Platform) -> (res: Result<
        AdminSocketPath,
        SocketPathError,
    >)
        ensures
            res is Ok <==> is_socket_path(path@, platform),
            res matches Ok(socket_path) ==> socket_path@ == path@,
    {
        if !platform.is_unix() && !path.has_prefix(PIPE_PREFIX) {
            return Err(SocketPathError);
        }
        Ok(AdminSocketPath { path })
    }

    /// Take the path written `text` for the admin socket.
    ///
    /// # Errors
    ///
    /// Returns an error if the path does not start with `\\.\pipe\` on Windows.
    pub fn from_str(text: &str, platform: Platform) -> (res: Result<
        AdminSocketPath,
        SocketPathError,
    >)
        ensures
            res is Ok <==> is_socket_path(encode_utf8(text@), platform),
            res matches Ok(socket_path) ==> socket_path@ == encode_utf8(text@),
    {
        AdminSocketPath::try_from(FsPath::new(text), platform)
    }

    /// The path itself.
    pub fn as_path(&self) -> (res: &FsPath)
        ensures
            res@ == self@,
    {
        &self.path
    }
}

/// The default path is one that the admin socket may be at.
pub proof fn default_socket_path_is_accepted(dirs: ProjectDirs, platform: Platform)
    ensures
        is_socket_path(default_socket_path(dirs, platform), platform),
{
    if !platform.is_unix() {
        let prefix = encode_utf8(PIPE_PREFIX@);
        let path = default_socket_path(dirs, platform);
        reveal_strlit("\\\\.\\pipe\\");
        is_ascii_chars_encode_utf8(PIPE_PREFIX@);
        assert(prefix[2] == PIPE_PREFIX@[2] as u8);
        assert(path.subrange(0, prefix.len() as int) =~= prefix);
    }
}

/// How long each connection to the admin socket will attempt to read or write before timing out.
///
/// It is less than 1 minute.
#[derive(Debug, Clone, Copy, PartialEq, Eq)]
pub struct AdminTimeout {
    timeout: Timeout<60>,
}

impl AdminTimeout {
    /// The length of the timeout.
    pub closed spec fn spec_duration(self) -> WaitTime {
        self.timeout.spec_duration()
    }

    #[verifier::type_invariant]
    spec fn less_than_a_minute(self) -> bool {
        self.timeout.spec_duration().nanoseconds() < 60_000_000_000
    }

    /// Take `timeout` for the admin socket.
    ///
    /// # Errors
    ///
    /// Returns an error if the timeout is not less than 1 minute.
    pub fn new(timeout: Timeout<60>) -> (res: Result<AdminTimeout, TimeoutError>)
        ensures
            match res {
                Ok(accepted) => timeout.spec_duration().nanoseconds() < 60_000_000_000
                    && accepted.spec_duration() == timeout.spec_duration(),
                Err(error) => timeout.spec_duration().nanoseconds() >= 60_000_000_000 && error == (
                TimeoutError::TooLong { max: 60 }),
            },
    {
        if timeout.duration().as_secs() < 60 {
            Ok(AdminTimeout { timeout })
        } else {
            Err(TimeoutError::TooLong { max: 60 })
        }
    }

    /// Create a timeout of the length of a span.
    ///
    /// # Errors
    ///
    /// Returns an error if the span is negative, has units greater than hours, or is not less than
    /// 1 minute.
    pub fn try_from_span(span: Span) -> (res: Result<AdminTimeout, TimeoutError>)
        requires
            span.valid(),
        ensures
            match res {
                Ok(timeout) => {
                    &&& span.has_length()
                    &&& span.length() < 60_000_000_000
                    &&& timeout.spec_duration().nanoseconds() == span.length()
                },
                Err(TimeoutError::Span(_)) => !span.has_length(),
                Err(TimeoutError::TooLong { max }) => {
                    &&& max == 60
                    &&& span.has_length()
                    &&& span.length() >= 60_000_000_000
                },
            },
    {
        match Timeout::<60>::try_from_span(span) {
            Ok(timeout) => AdminTimeout::new(timeout),
            Err(error) => Err(error),
        }
    }

    /// Read a timeout from a text such as `5 seconds`.
    ///
    /// # Errors
    ///
    /// Returns an error if the text is not a span of time, or the span is negative, has units
    /// greater than hours, or is not less than 1 minute.
    pub fn from_str(text: &str) -> (res: Result<AdminTimeout, TimeoutError>)
        ensures
            match res {
                Ok(timeout) => parsed_span(text@) matches Some(span) && span.has_length()
                    && span.length() < 60_000_000_000
                    && timeout.spec_duration().nanoseconds() == span.length(),
                Err(TimeoutError::Span(_)) => parsed_span(text@) matches Some(span)
                    ==> !span.has_length(),
                Err(TimeoutError::TooLong { max }) => max == 60 && (parsed_span(
                    text@,
                ) matches Some(span) && span.has_length() && span.length() >= 60_000_000_000),
            },
    {
        match Timeout::<60>::from_str(text) {
            Ok(timeout) => AdminTimeout::new(timeout),
            Err(error) => Err(error),
        }
    }

    /// The length of the timeout, which is always less than 1 minute.
    pub fn duration(&self) -> (res: WaitTime)
        ensures
            res == self.spec_duration(),
            res.nanoseconds() < 60_000_000_000,
    {
        proof {
            use_type_invariant(self);
        }
        self.timeout.duration()
    }
}

/// Admin socket configuration. The `[admin]` section in a config file.
#[derive(Debug)]
pub struct AdminConfig {
    /// Whether the admin socket is enabled.
    pub enabled: bool,

    /// Admin socket path.
    pub socket_path: Option<AdminSocketPath>,

    /// How long each connection will attempt to read or write before timing out.
    pub timeout: AdminTimeout,
}

/// The admin socket to use.
#[derive(Debug)]
pub struct AdminSocket {
    /// Where the socket is.
    pub path: AdminSocketPath,

    /// How long each connection will attempt to read or write before timing out.
    pub timeout: WaitTime,
}

impl AdminConfig {
    /// The path of the admin socket.
    pub open spec fn socket_path_in(self, dirs: ProjectDirs, platform: Platform) -> Seq<u8> {
        match self.socket_path {
            Some(path) => path@,
            None => default_socket_path(dirs, platform),
        }
    }

    /// The admin socket to use, on either side.
    ///
    /// Returns [`None`] if the admin socket is disabled.
    fn socket(self, dirs: &ProjectDirs, platform: Platform) -> (res: Option<AdminSocket>)
        ensures
            res is Some <==> self.enabled,
            res matches Some(socket) ==> {
                &&& socket.path@ == self.socket_path_in(*dirs, platform)
                &&& self.socket_path matches Some(path) ==> socket.path@ == path@
                &&& socket.timeout == self.timeout.spec_duration()
            },
    {
        if !self.enabled {
            return None;
        }
        let timeout = self.timeout.duration();
        let path = match self.socket_path {
            Some(path) => path,
            None => AdminSocketPath::default(dirs, platform),
        };
        Some(AdminSocket { path, timeout })
    }

    /// Begin to bind an admin server, on a platform.
    ///
    /// Returns [`None`] if the admin socket is disabled.
    pub fn into_server(self, dirs: &ProjectDirs, platform: Platform) -> (res: Option<
        (AdminSocket, IntoServer, IntoServerStep),
    >)
        ensures
            res is Some <==> self.enabled,
            res matches Some((socket, state, step)) ==> {
                &&& socket.path@ == self.socket_path_in(*dirs, platform)
                &&& self.socket_path matches Some(path) ==> socket.path@ == path@
                &&& socket.timeout == self.timeout.spec_duration()
                &&& (state, step) == IntoServer::begin(platform)
            },
    {
        match self.socket(dirs, platform) {
            Some(socket) => if platform.is_unix() {
                Some((socket, IntoServer::CheckingDirectory, IntoServerStep::CheckDirectory))
            } else {
                Some((socket, IntoServer::Binding, IntoServerStep::Bind))
            },
            None => None,
        }
    }

    /// Begin to connect to the admin socket, to send a request over it.
    ///
    /// There is no socket if it is disabled.
    pub fn into_client(self, dirs: &ProjectDirs, platform: Platform) -> (res: (
        Option<AdminSocket>,
        ClientSession,
        ClientStep,
    ))
        ensures
            res.0 is Some <==> self.enabled,
            res.0 matches Some(socket) ==> {
                &&& socket.path@ == self.socket_path_in(*dirs, platform)
                &&& self.socket_path matches Some(path) ==> socket.path@ == path@
                &&& socket.timeout == self.timeout.spec_duration()
            },
            (res.1, res.2) == ClientSession::begin(self.enabled),
    {
        match self.socket(dirs, platform) {
            Some(socket) => (Some(socket), ClientSession::Connecting, ClientStep::Connect),
            None => (
                None,
                ClientSession::Finished,
                ClientStep::Finish(Err(ClientError::Disabled)),
            ),
        }
    }
}

/// A socket path that is configured is the one that is used, on every platform and wherever the
/// project's directories are. Those matter only if none is configured.
pub proof fn configured_socket_path_is_used(
    config: AdminConfig,
    dirs: ProjectDirs,
    platform: Platform,
)
    ensures
        config.socket_path matches Some(path) ==> config.socket_path_in(dirs, platform) == path@,
        config.socket_path is None ==> config.socket_path_in(dirs, platform) == default_socket_path(
            dirs,
            platform,
        ),
{
}

/// Without a configured path the socket is on Unix the entry `novelnote_admin.sock` of the runtime
/// directory, of the state directory where there is no runtime directory, and of the local data
/// directory where there is neither. On Windows it is the same named pipe wherever the project's
/// directories are.
pub proof fn default_socket_is_in_the_first_directory_that_there_is(
    dirs: ProjectDirs,
    platform: Platform,
)
    ensures
        ({
            let path = default_socket_path(dirs, platform);
            let file = encode_utf8("novelnote_admin.sock"@);
            if platform == Platform::Windows {
                path == encode_utf8("\\\\.\\pipe\\"@) + encode_utf8("NovelNote_Admin"@)
            } else {
                &&& dirs.runtime_dir matches Some(directory) ==> path == joined(
                    directory@,
                    file,
                    platform,
                )
                &&& dirs.runtime_dir is None ==> (dirs.state_dir matches Some(directory) ==> path
                    == joined(directory@, file, platform))
                &&& dirs.runtime_dir is None && dirs.state_dir is None ==> path == joined(
                    dirs.data_local_dir@,
                    file,
                    platform,
                )
            }
        }),
{
    if platform == Platform::Windows {
        let prefix = encode_utf8(PIPE_PREFIX@);
        reveal_strlit("\\\\.\\pipe\\");
        is_ascii_chars_encode_utf8(PIPE_PREFIX@);
        assert(prefix[2] == PIPE_PREFIX@[2] as u8);
        assert(prefix[8] == PIPE_PREFIX@[8] as u8);
    }
}

/// On Windows the admin socket may be at a path if and only if that begins with `\\.\pipe\`, and
/// elsewhere at any path.
pub proof fn only_named_pipes_are_accepted_on_windows(rest: Seq<u8>, path: Seq<u8>, platform: Platform)
    ensures
        platform != Platform::Windows ==> is_socket_path(path, platform),
        is_socket_path(encode_utf8("\\\\.\\pipe\\"@) + rest, platform),
        is_socket_path(path, Platform::Windows) ==> path == encode_utf8("\\\\.\\pipe\\"@)
            + path.skip(encode_utf8("\\\\.\\pipe\\"@).len() as int),
{
    let prefix = encode_utf8(PIPE_PREFIX@);
    assert((prefix + rest).subrange(0, prefix.len() as int) =~= prefix);
    if is_socket_path(path, Platform::Windows) {
        assert(path =~= path.subrange(0, prefix.len() as int) + path.skip(prefix.len() as int));
    }
}

/// How far the binding of an admin server has come.
#[derive(Debug, Clone, Copy, PartialEq, Eq, Structural)]
pub enum IntoServer {
    /// It is looked up whether the directory of the socket exists.
    CheckingDirectory,

    /// The directory of the socket is created.
    CreatingDirectory,

    /// The server is bound to the socket.
    Binding,

    /// The server is bound, or it failed.
    Finished,
}

/// What to do next to bind an admin server.
#[derive(Debug, Clone, Copy, PartialEq, Eq)]
pub enum IntoServerStep {
    /// Look up whether the socket's path has a parent, and whether that is a directory.
    CheckDirectory,

    /// Create the parent of the socket's path, with all that lead to it.
    CreateDirectory,

    /// Bind the server to the socket.
    Bind,

    /// Stop, with this result.
    Finish(Result<(), AdminServerError>),

    /// Nothing, the binding was finished before.
    Idle,
}

/// What came of a step in binding an admin server.
#[derive(Debug, Clone, Copy, PartialEq, Eq, Structural)]
pub enum IntoServerEvent {
    /// The path of the socket has no parent.
    NoParent,

    /// The parent of the socket's path was looked up.
    Parent {
        /// Whether it is a directory.
        is_directory: bool,
    },

    /// What was asked for succeeded.
    Succeeded,

    /// What was asked for failed.
    Failed,
}

/// Error returned when an admin server cannot be bound.
#[derive(Debug, Clone, Copy, PartialEq, Eq, Structural)]
pub enum AdminServerError {
    /// The directory of the socket cannot be created.
    CreateDirectory,

    /// The server cannot be bound to the socket.
    Bind,
}

impl AdminServerError {
    /// Describe the error, given the directory of the socket.
    pub fn message(&self, directory: &FsPath, platform: Platform) -> (res: String)
        ensures
            res@ == match *self {
                AdminServerError::CreateDirectory => "error creating socket path directory `"@
                    + shown(directory@, platform) + "`"@,
                AdminServerError::Bind => "error binding admin server"@,
            },
    {
        match self {
            AdminServerError::CreateDirectory => concat3(
                "error creating socket path directory `",
                directory.display(platform).as_str(),
                "`",
            ),
            AdminServerError::Bind => "error binding admin server".to_string(),
        }
    }
}

impl Machine for IntoServer {
    type Input = IntoServerEvent;

    type Output = IntoServerStep;

    open spec fn next(self, input: IntoServerEvent) -> (IntoServer, IntoServerStep) {
        match (self, input) {
            (IntoServer::CheckingDirectory, IntoServerEvent::Parent { is_directory: false }) => (
                IntoServer::CreatingDirectory,
                IntoServerStep::CreateDirectory,
            ),
            (IntoServer::CheckingDirectory, _) => (IntoServer::Binding, IntoServerStep::Bind),
            (IntoServer::CreatingDirectory, IntoServerEvent::Failed) => (
                IntoServer::Finished,
                IntoServerStep::Finish(Err(AdminServerError::CreateDirectory)),
            ),
            (IntoServer::CreatingDirectory, _) => (IntoServer::Binding, IntoServerStep::Bind),
            (IntoServer::Binding, IntoServerEvent::Failed) => (
                IntoServer::Finished,
                IntoServerStep::Finish(Err(AdminServerError::Bind)),
            ),
            (IntoServer::Binding, _) => (IntoServer::Finished, IntoServerStep::Finish(Ok(()))),
            (IntoServer::Finished, _) => (IntoServer::Finished, IntoServerStep::Idle),
        }
    }
}

impl IntoServer {
    /// How the binding begins. Named pipes are in no directory.
    pub open spec fn begin(platform: Platform) -> (IntoServer, IntoServerStep) {
        if platform.is_unix() {
            (IntoServer::CheckingDirectory, IntoServerStep::CheckDirectory)
        } else {
            (IntoServer::Binding, IntoServerStep::Bind)
        }
    }

    /// Take in what came of the last step and determine what to do next.
    pub fn step(&mut self, event: IntoServerEvent) -> (res: IntoServerStep)
        ensures
            (*final(self), res) == old(self).next(event),
    {
        match *self {
            IntoServer::CheckingDirectory => match event {
                IntoServerEvent::Parent { is_directory: false } => {
                    *self = IntoServer::CreatingDirectory;
                    IntoServerStep::CreateDirectory
                },
                _ => {
                    *self = IntoServer::Binding;
                    IntoServerStep::Bind
                },
            },
            IntoServer::CreatingDirectory => match event {
                IntoServerEvent::Failed => {
                    *self = IntoServer::Finished;
                    IntoServerStep::Finish(Err(AdminServerError::CreateDirectory))
                },
                _ => {
                    *self = IntoServer::Binding;
                    IntoServerStep::Bind
                },
            },
            IntoServer::Binding => {
                *self = IntoServer::Finished;
                match event {
                    IntoServerEvent::Failed => IntoServerStep::Finish(Err(AdminServerError::Bind)),
                    _ => IntoServerStep::Finish(Ok(())),
                }
            },
            IntoServer::Finished => IntoServerStep::Idle,
        }
    }
}

/// The directory of the socket is created if and only if the socket's path has a parent which is
/// not a directory, and never on Windows.
pub proof fn socket_directory_is_created_if_missing(
    platform: Platform,
    events: Seq<IntoServerEvent>,
)
    requires
        events.len() > 0,
    ensures
        last_output(IntoServer::begin(platform).0, events) == IntoServerStep::CreateDirectory <==> {
            &&& platform.is_unix()
            &&& events == seq![IntoServerEvent::Parent { is_directory: false }]
        },
{
    let start = IntoServer::begin(platform).0;
    let before = events.drop_last();
    if before.len() == 0 {
        assert(events =~= seq![events.last()]);
    } else {
        lemma_checked_only_at_first(start, before);
    }
}

proof fn lemma_checked_only_at_first(start: IntoServer, events: Seq<IntoServerEvent>)
    requires
        events.len() > 0,
    ensures
        state_after(start, events) != IntoServer::CheckingDirectory,
    decreases events.len(),
{
    if events.len() > 1 {
        lemma_checked_only_at_first(start, events.drop_last());
    }
}

/// How far a request over the admin socket has come.
#[derive(Debug, Clone, Copy, PartialEq, Eq, Structural)]
pub enum ClientSession {
    /// A connection to the socket is established.
    Connecting,

    /// The request is made.
    Requesting,

    /// The request was answered, or something failed.
    Finished,
}

/// What to do next to make a request over the admin socket.
#[derive(Debug, Clone, Copy, PartialEq, Eq)]
pub enum ClientStep {
    /// Connect to the socket.
    Connect,

    /// Make the request.
    Request,

    /// Stop, with this result.
    Finish(Result<(), ClientError>),

    /// Nothing, the session was finished before.
    Idle,
}

/// Error returned when a request over the admin socket fails.
#[derive(Debug, Clone, Copy, PartialEq, Eq, Structural)]
pub enum ClientError {
    /// The admin socket is disabled.
    Disabled,

    /// A connection to the admin socket cannot be established.
    Connect,

    /// The request failed. Whoever made it describes the error.
    Request,
}

impl ClientError {
    /// Describe the error, if there is anything to add to its source.
    pub fn message(&self) -> (res: Option<&'static str>)
        ensures
            match *self {
                ClientError::Disabled => res matches Some(text) && text@
                    == "admin socket is disabled"@,
                ClientError::Connect => res matches Some(text) && text@
                    == "error connecting to admin socket"@,
                ClientError::Request => res is None,
            },
    {
        match self {
            ClientError::Disabled => Some("admin socket is disabled"),
            ClientError::Connect => Some("error connecting to admin socket"),
            ClientError::Request => None,
        }
    }

    /// Suggest what to do about the error.
    pub fn suggestion(&self) -> (res: Option<&'static str>)
        ensures
            match *self {
                ClientError::Disabled => res matches Some(text) && text@
                    == "set `admin.enabled = true` in config or use `--enable-admin-socket true`"@,
                ClientError::Connect => res matches Some(text) && text@
                    == "ensure that the NovelNote server is running"@,
                ClientError::Request => res is None,
            },
    {
        match self {
            ClientError::Disabled => Some(
                "set `admin.enabled = true` in config or use `--enable-admin-socket true`",
            ),
            ClientError::Connect => Some("ensure that the NovelNote server is running"),
            ClientError::Request => None,
        }
    }
}

impl Machine for ClientSession {
    type Input = bool;

    type Output = ClientStep;

    open spec fn next(self, input: bool) -> (ClientSession, ClientStep) {
        match (self, input) {
            (ClientSession::Connecting, true) => (ClientSession::Requesting, ClientStep::Request),
            (ClientSession::Connecting, false) => (
                ClientSession::Finished,
                ClientStep::Finish(Err(ClientError::Connect)),
            ),
            (ClientSession::Requesting, true) => (
                ClientSession::Finished,
                ClientStep::Finish(Ok(())),
            ),
            (ClientSession::Requesting, false) => (
                ClientSession::Finished,
                ClientStep::Finish(Err(ClientError::Request)),
            ),
            (ClientSession::Finished, _) => (ClientSession::Finished, ClientStep::Idle),
        }
    }
}

impl ClientSession {
    /// How a session begins.
    pub open spec fn begin(enabled: bool) -> (ClientSession, ClientStep) {
        if enabled {
            (ClientSession::Connecting, ClientStep::Connect)
        } else {
            (ClientSession::Finished, ClientStep::Finish(Err(ClientError::Disabled)))
        }
    }

    /// Take in whether the last step succeeded and determine what to do next.
    pub fn step(&mut self, succeeded: bool) -> (res: ClientStep)
        ensures
            (*final(self), res) == old(self).next(succeeded),
    {
        match *self {
            ClientSession::Connecting => if succeeded {
                *self = ClientSession::Requesting;
                ClientStep::Request
            } else {
                *self = ClientSession::Finished;
                ClientStep::Finish(Err(ClientError::Connect))
            },
            ClientSession::Requesting => {
                *self = ClientSession::Finished;
                if succeeded {
                    ClientStep::Finish(Ok(()))
                } else {
                    ClientStep::Finish(Err(ClientError::Request))
                }
            },
            ClientSession::Finished => ClientStep::Idle,
        }
    }
}

/// Over a disabled admin socket nothing is asked for, whatever happens.
pub proof fn disabled_socket_is_not_used(events: Seq<bool>)
    requires
        events.len() > 0,
    ensures
        last_output(ClientSession::begin(false).0, events) == ClientStep::Idle,
{
    lemma_session_stays_finished(events.drop_last());
}

proof fn lemma_session_stays_finished(events: Seq<bool>)
    ensures
        state_after(ClientSession::Finished, events) == ClientSession::Finished,
    decreases events.len(),
{
    if events.len() > 0 {
        lemma_session_stays_finished(events.drop_last());
    }
}

/// What is asked for to bind an admin server, given what was asked for before and what came of it. On
/// Unix it begins with the directory of the socket, on Windows with the binding.
pub proof fn binding_follows_its_events(
    platform: Platform,
    events: Seq<IntoServerEvent>,
    event: IntoServerEvent,
)
    ensures
        IntoServer::begin(platform).1 == if platform == Platform::Windows {
            IntoServerStep::Bind
        } else {
            IntoServerStep::CheckDirectory
        },
        ({
            let next = asked(IntoServer::begin(platform), events.push(event));
            match asked(IntoServer::begin(platform), events) {
                IntoServerStep::CheckDirectory => next == if event == (IntoServerEvent::Parent {
                    is_directory: false,
                }) {
                    IntoServerStep::CreateDirectory
                } else {
                    IntoServerStep::Bind
                },
                IntoServerStep::CreateDirectory => next == if event == IntoServerEvent::Failed {
                    IntoServerStep::Finish(Err(AdminServerError::CreateDirectory))
                } else {
                    IntoServerStep::Bind
                },
                IntoServerStep::Bind => next == if event == IntoServerEvent::Failed {
                    IntoServerStep::Finish(Err(AdminServerError::Bind))
                } else {
                    IntoServerStep::Finish(Ok(()))
                },
                IntoServerStep::Finish(_) | IntoServerStep::Idle => next == IntoServerStep::Idle,
            }
        }),
{
    lemma_told_one_more(IntoServer::begin(platform).0, events, event);
}

/// What is asked for to make a request over the admin socket, given what was asked for before and
/// whether it succeeded. Over a disabled socket it is an error from the beginning.
pub proof fn session_follows_its_answers(enabled: bool, answers: Seq<bool>, answer: bool)
    ensures
        ClientSession::begin(enabled).1 == if enabled {
            ClientStep::Connect
        } else {
            ClientStep::Finish(Err(ClientError::Disabled))
        },
        ({
            let next = asked(ClientSession::begin(enabled), answers.push(answer));
            match asked(ClientSession::begin(enabled), answers) {
                ClientStep::Connect => next == if answer {
                    ClientStep::Request
                } else {
                    ClientStep::Finish(Err(ClientError::Connect))
                },
                ClientStep::Request => next == if answer {
                    ClientStep::Finish(Ok(()))
                } else {
                    ClientStep::Finish(Err(ClientError::Request))
                },
                ClientStep::Finish(_) | ClientStep::Idle => next == ClientStep::Idle,
            }
        }),
{
    lemma_told_one_more(ClientSession::begin(enabled).0, answers, answer);
}

} // verus!
