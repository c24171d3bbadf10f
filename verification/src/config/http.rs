//! HTTP server configuration.

use crate::path::{FsPath, Platform};
use crate::server::{IpAddress, Server, SocketAddress};
use crate::trace::{asked, last_output, lemma_told_one_more, state_after, Machine};
use vstd::prelude::*;
use vstd::utf8::*;

verus! {

/// Where the assets may be, if their directory is not configured.
#[derive(Debug, Clone, Copy, PartialEq, Eq, Structural)]
pub enum AssetDirectory {
    /// Where packages of the system place them.
    System,

    /// Where the administrator of the system places them.
    SystemLocal,

    /// In the current working directory.
    WorkingDirectory,
}

impl AssetDirectory {
    /// The path of the directory.
    pub open spec fn text(self) -> Seq<char> {
        match self {
            AssetDirectory::System => "/usr/share/novelnote/dist"@,
            AssetDirectory::SystemLocal => "/usr/local/share/novelnote/dist"@,
            AssetDirectory::WorkingDirectory => "dist"@,
        }
    }

    /// The path of the directory.
    pub fn path(&self) -> (res: FsPath)
        ensures
            res@ == encode_utf8(self.text()),
    {
        match self {
            AssetDirectory::System => FsPath::new("/usr/share/novelnote/dist"),
            AssetDirectory::SystemLocal => FsPath::new("/usr/local/share/novelnote/dist"),
            AssetDirectory::WorkingDirectory => FsPath::new("dist"),
        }
    }
}

/// How far the search for the assets has come.
#[derive(Debug, Clone, Copy, PartialEq, Eq, Structural)]
pub enum AssetSearch {
    /// It is looked up whether the directory of the system exists.
    CheckingSystem,

    /// It is looked up whether the directory of the system's administrator exists.
    CheckingSystemLocal,

    /// The search is over.
    Finished,
}

/// What to do next to find the assets.
#[derive(Debug, Clone, Copy, PartialEq, Eq, Structural)]
pub enum AssetStep {
    /// Look up whether this is a directory.
    Check(AssetDirectory),

    /// Use this directory.
    Use(AssetDirectory),

    /// Nothing, the search was over before.
    Idle,
}

impl Machine for AssetSearch {
    type Input = bool;

    type Output = AssetStep;

    open spec fn next(self, input: bool) -> (AssetSearch, AssetStep) {
        match (self, input) {
            (AssetSearch::CheckingSystem, true) => (
                AssetSearch::Finished,
                AssetStep::Use(AssetDirectory::System),
            ),
            (AssetSearch::CheckingSystem, false) => (
                AssetSearch::CheckingSystemLocal,
                AssetStep::Check(AssetDirectory::SystemLocal),
            ),
            (AssetSearch::CheckingSystemLocal, true) => (
                AssetSearch::Finished,
                AssetStep::Use(AssetDirectory::SystemLocal),
            ),
            (AssetSearch::CheckingSystemLocal, false) => (
                AssetSearch::Finished,
                AssetStep::Use(AssetDirectory::WorkingDirectory),
            ),
            (AssetSearch::Finished, _) => (AssetSearch::Finished, AssetStep::Idle),
        }
    }
}

impl AssetSearch {
    /// How the search begins. Only on Unix are there directories to look up.
    pub open spec fn begin(platform: Platform) -> (AssetSearch, AssetStep) {
        if platform.is_unix() {
            (AssetSearch::CheckingSystem, AssetStep::Check(AssetDirectory::System))
        } else {
            (AssetSearch::Finished, AssetStep::Use(AssetDirectory::WorkingDirectory))
        }
    }

    /// Begin to search for the default asset directory.
    pub fn default_asset_directory(platform: Platform) -> (res: (AssetSearch, AssetStep))
        ensures
            res == AssetSearch::begin(platform),
    {
        if platform.is_unix() {
            (AssetSearch::CheckingSystem, AssetStep::Check(AssetDirectory::System))
        } else {
            (AssetSearch::Finished, AssetStep::Use(AssetDirectory::WorkingDirectory))
        }
    }

    /// Take in whether the path that was looked up is a directory and determine what to do next.
    pub fn step(&mut self, is_directory: bool) -> (res: AssetStep)
        ensures
            (*final(self), res) == old(self).next(is_directory),
    {
        match *self {
            AssetSearch::CheckingSystem => if is_directory {
                *self = AssetSearch::Finished;
                AssetStep::Use(AssetDirectory::System)
            } else {
                *self = AssetSearch::CheckingSystemLocal;
                AssetStep::Check(AssetDirectory::SystemLocal)
            },
            AssetSearch::CheckingSystemLocal => {
                *self = AssetSearch::Finished;
                if is_directory {
                    AssetStep::Use(AssetDirectory::SystemLocal)
                } else {
                    AssetStep::Use(AssetDirectory::WorkingDirectory)
                }
            },
            AssetSearch::Finished => AssetStep::Idle,
        }
    }
}

/// Which default asset directory is used on Unix, if `present` tells which of the paths are
/// directories: the first that exists, otherwise the one in the current working directory.
pub open spec fn first_asset_directory(present: spec_fn(AssetDirectory) -> bool) -> AssetDirectory {
    if present(AssetDirectory::System) {
        AssetDirectory::System
    } else if present(AssetDirectory::SystemLocal) {
        AssetDirectory::SystemLocal
    } else {
        AssetDirectory::WorkingDirectory
    }
}

/// On Unix the search ends with the first directory that exists, after it was told of the
/// directories before it.
pub proof fn first_existing_asset_directory_is_used(present: spec_fn(AssetDirectory) -> bool)
    ensures
        ({
            let answers = if present(AssetDirectory::System) {
                seq![true]
            } else {
                seq![false, present(AssetDirectory::SystemLocal)]
            };
            last_output(AssetSearch::CheckingSystem, answers) == AssetStep::Use(
                first_asset_directory(present),
            )
        }),
{
    reveal_with_fuel(state_after, 3);
    let second = present(AssetDirectory::SystemLocal);
    assert(seq![true].drop_last() =~= seq![]);
    assert(seq![false, second].drop_last() =~= seq![false]);
    assert(seq![false].drop_last() =~= seq![]);
}

/// The step with which the search ends, if it has come to `step` in `state` and each path that it asks
/// about is answered by `is_directory`. It asks at most `questions` times.
pub open spec fn found(
    state: AssetSearch,
    step: AssetStep,
    is_directory: spec_fn(Seq<char>) -> bool,
    questions: nat,
) -> AssetStep
    decreases questions,
{
    match step {
        AssetStep::Check(directory) if questions > 0 => {
            let (after, next) = state.next(is_directory(directory.text()));
            found(after, next, is_directory, (questions - 1) as nat)
        },
        _ => step,
    }
}

/// The search for the default asset directory, from its beginning: on every platform of the Unix
/// family it ends with the first of `/usr/share/novelnote/dist` and
/// `/usr/local/share/novelnote/dist` that is a directory, and with `dist` if neither is. On Windows it
/// ends with `dist` in any case.
pub proof fn search_ends_with_the_first_directory(
    platform: Platform,
    is_directory: spec_fn(Seq<char>) -> bool,
)
    ensures
        ({
            let begin = AssetSearch::begin(platform);
            let unix = platform != Platform::Windows;
            let system = "/usr/share/novelnote/dist"@;
            let local = "/usr/local/share/novelnote/dist"@;
            &&& found(begin.0, begin.1, is_directory, 2) matches AssetStep::Use(directory)
                && directory.text() == if unix && is_directory(system) {
                system
            } else if unix && is_directory(local) {
                local
            } else {
                "dist"@
            }
        }),
{
    reveal_with_fuel(found, 3);
}

/// Nothing is used before it is told to be a directory, but for `dist`: what is used is what was just
/// asked about, if the answer is yes. After that the search is over.
pub proof fn what_is_asked_about_is_used(platform: Platform, answers: Seq<bool>, answer: bool)
    ensures
        ({
            let begin = AssetSearch::begin(platform);
            let next = asked(begin, answers.push(answer));
            match asked(begin, answers) {
                AssetStep::Check(directory) => if answer {
                    next == AssetStep::Use(directory)
                } else {
                    next is Check || next == AssetStep::Use(AssetDirectory::WorkingDirectory)
                },
                AssetStep::Use(_) | AssetStep::Idle => next == AssetStep::Idle,
            }
        }),
{
    lemma_told_one_more(AssetSearch::begin(platform).0, answers, answer);
}

/// HTTP server configuration. The `[http]` section in a config file.
#[derive(Debug)]
pub struct HttpServerConfig {
    /// IP address the HTTP server should bind to.
    pub bind_address: IpAddress,

    /// TCP port the HTTP server should bind to.
    pub port: u16,

    /// Path to the directory containing NovelNote's frontend and other assets.
    pub asset_directory: Option<FsPath>,
}

impl HttpServerConfig {
    /// The asset directory, given the one to use if none is configured.
    pub open spec fn asset_directory_or(self, default: FsPath) -> FsPath {
        match self.asset_directory {
            Some(asset_directory) => asset_directory,
            None => default,
        }
    }

    /// Create the server from the config and the asset directory to use if none is configured.
    pub fn into_server(self, default_asset_directory: FsPath) -> (res: Server)
        ensures
            res.socket_address == (SocketAddress { ip: self.bind_address, port: self.port }),
            res.asset_directory == match self.asset_directory {
                Some(asset_directory) => asset_directory,
                None => default_asset_directory,
            },
            res.asset_directory == self.asset_directory_or(default_asset_directory),
    {
        let asset_directory = match self.asset_directory {
            Some(asset_directory) => asset_directory,
            None => default_asset_directory,
        };
        Server {
            socket_address: SocketAddress { ip: self.bind_address, port: self.port },
            asset_directory,
        }
    }
}

/// An asset directory that is configured is the one that is used, whatever the default is. Only if none
/// is, the default is used.
pub proof fn configured_asset_directory_is_used(config: HttpServerConfig, default: FsPath)
    ensures
        config.asset_directory matches Some(directory) ==> config.asset_directory_or(default)
            == directory,
        config.asset_directory is None ==> config.asset_directory_or(default) == default,
{
}

} // verus!
