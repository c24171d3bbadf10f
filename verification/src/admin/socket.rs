//! Opening the admin socket, on either side.

use crate::path::{shown, FsPath, Platform};
use crate::text::concat3;
use vstd::prelude::*;

verus! {

/// Error returned when opening a connection to a local socket fails.
#[derive(Debug)]
pub enum ConnectionError {
    /// The given `path` is not supported.
    InvalidPath {
        /// IO error source.
        source: std::io::Error,

        /// Attempted path.
        path: FsPath,
    },

    /// Error binding to `path`.
    Bind {
        /// IO error source.
        source: std::io::Error,

        /// Attempted bind path.
        path: FsPath,
    },
}

impl ConnectionError {
    /// Describe the error.
    pub fn message(&self, platform: Platform) -> (res: String)
        ensures
            res@ == match *self {
                ConnectionError::InvalidPath { path, .. } => "path `"@ + shown(path@, platform)
                    + "` is not supported for socket communication"@,
                ConnectionError::Bind { path, .. } => "error binding to path `"@ + shown(path@, platform)
                    + "`"@,
            },
    {
        match self {
            ConnectionError::InvalidPath { path, .. } => concat3(
                "path `",
                path.display(platform).as_str(),
                "` is not supported for socket communication",
            ),
            ConnectionError::Bind { path, .. } => concat3(
                "error binding to path `",
                path.display(platform).as_str(),
                "`",
            ),
        }
    }
}

/// How the admin server's socket is set up.
#[derive(Debug, Clone, Copy, PartialEq, Eq, Structural)]
pub struct ListenerOptions {
    /// Whether a socket that is left over at the path is replaced.
    pub overwrite: bool,

    /// Permissions of the socket file, where the platform lets them be set.
    pub mode: Option<u32>,
}

impl ListenerOptions {
    /// The options for a platform.
    pub open spec fn on(platform: Platform) -> ListenerOptions {
        ListenerOptions {
            overwrite: true,
            mode: match platform {
                Platform::Linux | Platform::FreeBsd | Platform::OpenBsd => Some(0o750u32),
                _ => None,
            },
        }
    }

    /// The options for a platform: the owner may do anything, the group may connect.
    pub fn new(platform: Platform) -> (res: ListenerOptions)
        ensures
            res.overwrite,
            res.mode == match platform {
                Platform::Linux | Platform::FreeBsd | Platform::OpenBsd => Some(0o750u32),
                _ => None,
            },
            res == ListenerOptions::on(platform),
    {
        let mode = match platform {
            Platform::Linux | Platform::FreeBsd | Platform::OpenBsd => Some(0o750u32),
            _ => None,
        };
        ListenerOptions { overwrite: true, mode }
    }
}

/// How far the socket at a path has been opened.
#[derive(Debug, Clone, Copy, PartialEq, Eq, Structural)]
pub enum OpeningPhase {
    /// The path is being turned into the name of a socket.
    Naming,

    /// The socket is being bound or connected to.
    Binding,

    /// The socket is open, or it failed.
    Finished,
}

/// The opening of the socket at a path.
#[derive(Debug)]
pub struct SocketOpening {
    /// How far it has come.
    pub phase: OpeningPhase,

    /// Path of the socket.
    pub path: FsPath,
}

/// What to do next to open the socket.
#[derive(Debug)]
pub enum OpeningStep {
    /// Bind the socket, or connect to it.
    Bind,

    /// Stop, with this result.
    Finish(Result<(), ConnectionError>),

    /// Nothing, the opening was finished before.
    Idle,
}

impl SocketOpening {
    /// Begin to open the socket at `path`. The path is to be turned into the name of a socket.
    pub fn new(path: FsPath) -> (res: SocketOpening)
        ensures
            res.phase == OpeningPhase::Naming,
            res.path == path,
    {
        SocketOpening { phase: OpeningPhase::Naming, path }
    }

    /// Take in the result of what was last done and determine what to do next.
    pub fn step(&mut self, result: Result<(), std::io::Error>) -> (res: OpeningStep)
        ensures
            final(self).path == old(self).path,
            match (old(self).phase, result) {
                (OpeningPhase::Naming, Ok(())) => {
                    &&& res is Bind
                    &&& final(self).phase == OpeningPhase::Binding
                },
                (OpeningPhase::Naming, Err(error)) => {
                    &&& res matches OpeningStep::Finish(
                        Err(ConnectionError::InvalidPath { source, path }),
                    ) && source == error && path@ == old(self).path@
                    &&& final(self).phase == OpeningPhase::Finished
                },
                (OpeningPhase::Binding, Ok(())) => {
                    &&& res matches OpeningStep::Finish(Ok(()))
                    &&& final(self).phase == OpeningPhase::Finished
                },
                (OpeningPhase::Binding, Err(error)) => {
                    &&& res matches OpeningStep::Finish(
                        Err(ConnectionError::Bind { source, path }),
                    ) && source == error && path@ == old(self).path@
                    &&& final(self).phase == OpeningPhase::Finished
                },
                (OpeningPhase::Finished, _) => {
                    &&& res is Idle
                    &&& final(self).phase == OpeningPhase::Finished
                },
            },
    {
        match self.phase {
            OpeningPhase::Naming => match result {
                Ok(()) => {
                    self.phase = OpeningPhase::Binding;
                    OpeningStep::Bind
                },
                Err(source) => {
                    self.phase = OpeningPhase::Finished;
                    let path = self.path.duplicate();
                    OpeningStep::Finish(Err(ConnectionError::InvalidPath { source, path }))
                },
            },
            OpeningPhase::Binding => {
                self.phase = OpeningPhase::Finished;
                match result {
                    Ok(()) => OpeningStep::Finish(Ok(())),
                    Err(source) => {
                        let path = self.path.duplicate();
                        OpeningStep::Finish(Err(ConnectionError::Bind { source, path }))
                    },
                }
            },
            OpeningPhase::Finished => OpeningStep::Idle,
        }
    }
}

/// Where the permissions of the socket can be set, others than its owner and group have none, the group
/// may read it and go through it but not write to it, and the owner may do anything. A socket that is
/// left over is replaced everywhere.
pub proof fn socket_is_closed_to_others(platform: Platform)
    ensures
        ListenerOptions::on(platform).overwrite,
        ListenerOptions::on(platform).mode is Some <==> platform == Platform::Linux || platform
            == Platform::FreeBsd || platform == Platform::OpenBsd,
        ListenerOptions::on(platform).mode matches Some(mode) ==> {
            &&& mode % 8 == 0
            &&& mode / 8 % 8 == 4 + 1
            &&& mode / 64 == 4 + 2 + 1
        },
{
}

} // verus!
