//! The configuration of NovelNote and what follows from it.

pub mod admin;
pub mod database;
pub mod http;
pub mod log;

use crate::config::admin::AdminConfig;
use crate::config::database::DatabaseConfig;
use crate::config::http::HttpServerConfig;
use crate::config::log::LogConfig;
use crate::path::{is_component, joined, lemma_plain_name, FsPath, Platform, ProjectDirs};
use vstd::prelude::*;
use vstd::utf8::*;

verus! {

/// NovelNote configuration, once the files, the environment and the arguments have been combined.
#[derive(Debug)]
pub struct Config {
    /// Admin socket configuration.
    pub admin: AdminConfig,

    /// Logging configuration.
    pub log: LogConfig,

    /// SQLite database configuration.
    pub database: DatabaseConfig,

    /// HTTP server configuration.
    pub http: HttpServerConfig,
}

/// The name of a config file.
pub const CONFIG_FILE_NAME: &'static str = "novelnote.toml";

/// The config file for all users of a Unix system.
pub const SYSTEM_CONFIG_FILE: &'static str = "/etc/novelnote/novelnote.toml";

/// The config files to read, those that come first having priority.
///
/// If a file was given, it is the only one. Otherwise the current working directory, the project's
/// config directory and, on Unix, the system's are looked in.
pub open spec fn config_file_paths(
    config_file: Option<FsPath>,
    dirs: ProjectDirs,
    platform: Platform,
) -> Seq<Seq<u8>> {
    match config_file {
        Some(file) => seq![file@],
        None => {
            let local = seq![
                encode_utf8(CONFIG_FILE_NAME@),
                joined(dirs.config_dir@, encode_utf8(CONFIG_FILE_NAME@), platform),
            ];
            if platform.is_unix() {
                local.push(encode_utf8(SYSTEM_CONFIG_FILE@))
            } else {
                local
            }
        },
    }
}

proof fn lemma_config_file_name()
    ensures
        is_component(encode_utf8(CONFIG_FILE_NAME@)),
{
    reveal_strlit("novelnote.toml");
    lemma_plain_name(CONFIG_FILE_NAME@);
}

/// The config files to read, in order of descending priority.
pub fn config_files(
    config_file: Option<FsPath>,
    dirs: &ProjectDirs,
    platform: Platform,
) -> (res: Vec<FsPath>)
    ensures
        res@.map_values(|file: FsPath| file@) == config_file_paths(config_file, *dirs, platform),
{
    let mut files: Vec<FsPath> = Vec::new();
    match config_file {
        Some(file) => {
            files.push(file);
        },
        None => {
            proof {
                lemma_config_file_name();
            }
            files.push(FsPath::new(CONFIG_FILE_NAME));
            files.push(dirs.config_dir.join(CONFIG_FILE_NAME, platform));
            if platform.is_unix() {
                files.push(FsPath::new(SYSTEM_CONFIG_FILE));
            }
        },
    }
    assert(files@.map_values(|file: FsPath| file@) =~= config_file_paths(
        config_file,
        *dirs,
        platform,
    ));
    files
}

/// A given config file is the only one that is read.
pub proof fn given_config_file_is_the_only_one(
    config_file: FsPath,
    dirs: ProjectDirs,
    platform: Platform,
)
    ensures
        config_file_paths(Some(config_file), dirs, platform) == seq![config_file@],
{
}

/// A given config file is the only one, on every platform and wherever the project's directories are.
/// Without one, the file in the current working directory comes first, then the one in the project's
/// config directory, and on Unix that of the system comes last.
pub proof fn config_files_are_looked_up_in_order(
    config_file: Option<FsPath>,
    dirs: ProjectDirs,
    platform: Platform,
)
    ensures
        ({
            let files = config_file_paths(config_file, dirs, platform);
            match config_file {
                Some(file) => files.len() == 1 && files[0] == file@,
                None => {
                    &&& files.len() == if platform == Platform::Windows {
                        2nat
                    } else {
                        3
                    }
                    &&& files[0] == encode_utf8("novelnote.toml"@)
                    &&& files[1] == joined(dirs.config_dir@, encode_utf8("novelnote.toml"@), platform)
                    &&& platform != Platform::Windows ==> files[2] == encode_utf8(
                        "/etc/novelnote/novelnote.toml"@,
                    )
                },
            }
        }),
{
}

} // verus!
