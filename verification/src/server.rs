//! The HTTP server.

use crate::path::FsPath;
use crate::text::concat3;
use crate::trace::{last_output, lemma_told_one_more, state_after, Machine};
use vstd::prelude::*;

verus! {

/// An IP address.
#[derive(Debug, Clone, Copy, PartialEq, Eq, Structural)]
pub enum IpAddress {
    /// An IPv4 address as a number, its first octet being the most significant.
    V4(u32),

    /// An IPv6 address as a number, its first segment being the most significant.
    V6(u128),
}

/// An IP address and a TCP port.
#[derive(Debug, Clone, Copy, PartialEq, Eq, Structural)]
pub struct SocketAddress {
    /// IP address.
    pub ip: IpAddress,

    /// TCP port.
    pub port: u16,
}

/// Configuration for running the NovelNote HTTP server.
#[derive(Debug)]
pub struct Server {
    /// Socket address the server binds to.
    pub socket_address: SocketAddress,

    /// Directory of the frontend and other assets.
    pub asset_directory: FsPath,
}

/// Path that the routes of the API are nested under.
pub const API_PATH: &'static str = "/api";

/// Path of the OpenAPI document, under that of the API.
pub const OPENAPI_PATH: &'static str = "/openapi.json";

/// Path of the documentation, under that of the API.
pub const REDOC_PATH: &'static str = "/redoc";

/// How many seconds a request may take, so that it cannot stop the server from shutting down.
pub const REQUEST_TIMEOUT_SECS: u64 = 15;

/// Status of the response to a request that takes too long: Request Timeout.
pub const REQUEST_TIMEOUT_STATUS: u16 = 408;

/// Answer a health check: the server is there, so the status is OK.
pub fn health_check() -> (status: u16)
    ensures
        status == 200,
{
    200
}

/// Error returned when running the server fails.
#[derive(Debug)]
pub enum ServerError {
    /// Error binding to the given socket address.
    Bind {
        /// Socket address binding was attempted for.
        socket_address: SocketAddress,

        /// Error source.
        source: std::io::Error,
    },

    /// Error listening to the TCP stream.
    Listen {
        /// Error source.
        source: std::io::Error,
    },
}

impl ServerError {
    /// Describe the error, given how the socket address is written.
    pub fn message(&self, socket_address: &str) -> (res: String)
        ensures
            res@ == match *self {
                ServerError::Bind { .. } => "error binding to socket address `"@
                    + socket_address@ + "`"@,
                ServerError::Listen { .. } => "error listening to TCP stream"@,
            },
    {
        match self {
            ServerError::Bind { .. } => concat3(
                "error binding to socket address `",
                socket_address,
                "`",
            ),
            ServerError::Listen { .. } => "error listening to TCP stream".to_string(),
        }
    }
}

/// How far a run of the server has come.
#[derive(Debug, Clone, Copy, PartialEq, Eq, Structural)]
pub enum RunPhase {
    /// The server is bound to its socket address.
    Binding,

    /// The address that the server is bound to is looked up.
    LookingUpAddress,

    /// The server serves requests.
    Serving,

    /// The server was shut down, or something failed.
    Finished,
}

/// A run of the server.
#[derive(Debug, Clone, Copy, PartialEq, Eq, Structural)]
pub struct ServerRun {
    /// How far it has come.
    pub phase: RunPhase,

    /// Socket address the server binds to.
    pub socket_address: SocketAddress,
}

/// What to do next to run the server.
#[derive(Debug)]
pub enum RunStep {
    /// Look up the address that the server is bound to.
    LookUpAddress,

    /// Serve requests until the signal to shut down.
    Serve,

    /// Stop, with this result.
    Finish(Result<(), ServerError>),

    /// Nothing, the run was finished before.
    Idle,
}

impl Machine for ServerRun {
    type Input = Result<(), std::io::Error>;

    type Output = RunStep;

    open spec fn next(self, input: Result<(), std::io::Error>) -> (ServerRun, RunStep) {
        match (self.phase, input) {
            (RunPhase::Binding, Ok(())) => (
                ServerRun { phase: RunPhase::LookingUpAddress, ..self },
                RunStep::LookUpAddress,
            ),
            (RunPhase::LookingUpAddress, Ok(())) => (
                ServerRun { phase: RunPhase::Serving, ..self },
                RunStep::Serve,
            ),
            (RunPhase::Binding, Err(source)) | (RunPhase::LookingUpAddress, Err(source)) => (
                ServerRun { phase: RunPhase::Finished, ..self },
                RunStep::Finish(
                    Err(ServerError::Bind { socket_address: self.socket_address, source }),
                ),
            ),
            (RunPhase::Serving, Ok(())) => (
                ServerRun { phase: RunPhase::Finished, ..self },
                RunStep::Finish(Ok(())),
            ),
            (RunPhase::Serving, Err(source)) => (
                ServerRun { phase: RunPhase::Finished, ..self },
                RunStep::Finish(Err(ServerError::Listen { source })),
            ),
            (RunPhase::Finished, _) => (self, RunStep::Idle),
        }
    }
}

impl Server {
    /// How a run of the server begins.
    pub open spec fn start(self) -> ServerRun {
        ServerRun { phase: RunPhase::Binding, socket_address: self.socket_address }
    }

    /// Begin to run the server. It is to be bound to its socket address.
    pub fn run(&self) -> (res: ServerRun)
        ensures
            res.phase == RunPhase::Binding,
            res.socket_address == self.socket_address,
            res == self.start(),
    {
        ServerRun { phase: RunPhase::Binding, socket_address: self.socket_address }
    }
}

impl ServerRun {
    /// Take in the result of what was last done and determine what to do next.
    pub fn step(&mut self, result: Result<(), std::io::Error>) -> (res: RunStep)
        ensures
            (*final(self), res) == old(self).next(result),
    {
        match self.phase {
            RunPhase::Binding => match result {
                Ok(()) => {
                    self.phase = RunPhase::LookingUpAddress;
                    RunStep::LookUpAddress
                },
                Err(source) => {
                    self.phase = RunPhase::Finished;
                    let socket_address = self.socket_address;
                    RunStep::Finish(Err(ServerError::Bind { socket_address, source }))
                },
            },
            RunPhase::LookingUpAddress => match result {
                Ok(()) => {
                    self.phase = RunPhase::Serving;
                    RunStep::Serve
                },
                Err(source) => {
                    self.phase = RunPhase::Finished;
                    let socket_address = self.socket_address;
                    RunStep::Finish(Err(ServerError::Bind { socket_address, source }))
                },
            },
            RunPhase::Serving => {
                self.phase = RunPhase::Finished;
                match result {
                    Ok(()) => RunStep::Finish(Ok(())),
                    Err(source) => RunStep::Finish(Err(ServerError::Listen { source })),
                }
            },
            RunPhase::Finished => RunStep::Idle,
        }
    }
}

proof fn lemma_serving(start: ServerRun, results: Seq<Result<(), std::io::Error>>)
    requires
        start.phase == RunPhase::Binding,
    ensures
        state_after(start, results).phase == RunPhase::Binding <==> results.len() == 0,
        state_after(start, results).phase == RunPhase::LookingUpAddress <==> {
            &&& results.len() == 1
            &&& results[0] is Ok
        },
        state_after(start, results).phase == RunPhase::Serving <==> {
            &&& results.len() == 2
            &&& results[0] is Ok
            &&& results[1] is Ok
        },
    decreases results.len(),
{
    if results.len() > 0 {
        lemma_serving(start, results.drop_last());
    }
}

/// Requests are served if and only if the server was bound to its address and that address could be
/// looked up.
pub proof fn requests_are_served_once_bound(
    start: ServerRun,
    results: Seq<Result<(), std::io::Error>>,
)
    requires
        start.phase == RunPhase::Binding,
        results.len() > 0,
    ensures
        last_output(start, results) is Serve <==> {
            &&& results.len() == 2
            &&& results[0] is Ok
            &&& results[1] is Ok
        },
{
    lemma_serving(start, results.drop_last());
}

/// A run ends without an error if and only if the server was bound, served requests and was shut
/// down, none of it failing.
pub proof fn run_succeeds_if_nothing_fails(
    start: ServerRun,
    results: Seq<Result<(), std::io::Error>>,
)
    requires
        start.phase == RunPhase::Binding,
        results.len() > 0,
    ensures
        last_output(start, results) matches RunStep::Finish(Ok(())) <==> {
            &&& results.len() == 3
            &&& results[0] is Ok
            &&& results[1] is Ok
            &&& results[2] is Ok
        },
{
    lemma_serving(start, results.drop_last());
}

proof fn lemma_address_stays(start: ServerRun, results: Seq<Result<(), std::io::Error>>)
    ensures
        state_after(start, results).socket_address == start.socket_address,
    decreases results.len(),
{
    if results.len() > 0 {
        lemma_address_stays(start, results.drop_last());
    }
}

/// What is done next to run a server, given what was done before and what came of it. It is bound
/// first, then its address is looked up, then it serves. Until it serves, a failure is told with the
/// address that the server was to be bound to, and with its own cause in any case.
pub proof fn run_follows_its_results(
    server: Server,
    results: Seq<Result<(), std::io::Error>>,
    result: Result<(), std::io::Error>,
)
    ensures
        ({
            let next = last_output(server.start(), results.push(result));
            if results.len() == 0 {
                match result {
                    Ok(_) => next is LookUpAddress,
                    Err(cause) => next matches RunStep::Finish(
                        Err(ServerError::Bind { socket_address, source }),
                    ) && socket_address == server.socket_address && source == cause,
                }
            } else {
                match (last_output(server.start(), results), result) {
                    (RunStep::LookUpAddress, Ok(_)) => next is Serve,
                    (RunStep::LookUpAddress, Err(cause)) => next matches RunStep::Finish(
                        Err(ServerError::Bind { socket_address, source }),
                    ) && socket_address == server.socket_address && source == cause,
                    (RunStep::Serve, Ok(_)) => next matches RunStep::Finish(Ok(_)),
                    (RunStep::Serve, Err(cause)) => next matches RunStep::Finish(
                        Err(ServerError::Listen { source }),
                    ) && source == cause,
                    (RunStep::Finish(_), _) | (RunStep::Idle, _) => next is Idle,
                }
            }
        }),
{
    lemma_told_one_more(server.start(), results, result);
    lemma_address_stays(server.start(), results);
}

/// Where the routes of the API and its documentation are, and how long a request may take before it is
/// answered with Request Timeout.
pub proof fn routes_and_limits_of_the_server()
    ensures
        API_PATH@ == "/api"@,
        OPENAPI_PATH@ == "/openapi.json"@,
        REDOC_PATH@ == "/redoc"@,
        REQUEST_TIMEOUT_SECS == 15,
        REQUEST_TIMEOUT_STATUS == 408,
{
}

} // verus!
