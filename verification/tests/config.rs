use novelnote::backup::KeepLast;
use novelnote::config::admin::{
    AdminConfig, AdminServerError, AdminSocketPath, AdminTimeout, ClientError, ClientSession,
    ClientStep, IntoServer, IntoServerEvent, IntoServerStep,
};
use novelnote::config::config_files;
use novelnote::config::database::{
    DatabaseBackupConfig, DatabaseConfig, DatabaseOpening, DatabaseOpeningError,
    DatabaseOpeningStep,
};
use novelnote::config::http::{AssetDirectory, AssetSearch, AssetStep, HttpServerConfig};
use novelnote::config::log::{
    DirectiveError, LogConfig, LogDirective, LogError, LogInit, LogLayer, LogOutput, LogReady,
    LogStep,
};
use novelnote::path::{FsPath, Platform, ProjectDirs};
use novelnote::server::{IpAddress, SocketAddress};

fn dirs() -> ProjectDirs {
    ProjectDirs {
        config_dir: FsPath::new("/home/u/.config/novelnote"),
        data_dir: FsPath::new("/home/u/.local/share/novelnote"),
        data_local_dir: FsPath::new("/home/u/.local/share/local"),
        state_dir: Some(FsPath::new("/home/u/.local/state/novelnote")),
        runtime_dir: Some(FsPath::new("/run/user/1000/novelnote")),
    }
}

fn shown(paths: &[FsPath]) -> Vec<String> {
    paths.iter().map(|path| path.display(Platform::Linux)).collect()
}

fn admin(enabled: bool, socket_path: Option<&str>) -> AdminConfig {
    AdminConfig {
        enabled,
        socket_path: socket_path
            .map(|path| AdminSocketPath::from_str(path, Platform::Linux).expect("any path")),
        timeout: AdminTimeout::from_str("5 seconds").expect("short enough"),
    }
}

#[test]
fn config_files_are_layered() {
    assert_eq!(
        shown(&config_files(None, &dirs(), Platform::Linux)),
        [
            "novelnote.toml",
            "/home/u/.config/novelnote/novelnote.toml",
            "/etc/novelnote/novelnote.toml",
        ]
    );
    let mut windows = dirs();
    windows.config_dir = FsPath::new("C:\\NovelNote\\config");
    assert_eq!(
        shown(&config_files(None, &windows, Platform::Windows)),
        ["novelnote.toml", "C:\\NovelNote\\config\\novelnote.toml"]
    );
}

#[test]
fn given_config_file_is_read_alone() {
    let file = FsPath::new("/tmp/some.toml");
    assert_eq!(
        shown(&config_files(Some(file), &dirs(), Platform::Linux)),
        ["/tmp/some.toml"]
    );
}

#[test]
fn socket_is_in_the_first_directory_that_there_is() {
    let mut dirs = dirs();
    let path = |dirs: &ProjectDirs| {
        AdminSocketPath::default(dirs, Platform::Linux).as_path().display(Platform::Linux)
    };
    assert_eq!(path(&dirs), "/run/user/1000/novelnote/novelnote_admin.sock");
    assert!(!AdminSocketPath::default_falls_back_to_state_dir(&dirs, Platform::Linux));
    dirs.runtime_dir = None;
    assert_eq!(path(&dirs), "/home/u/.local/state/novelnote/novelnote_admin.sock");
    assert!(AdminSocketPath::default_falls_back_to_state_dir(&dirs, Platform::Linux));
    dirs.state_dir = None;
    assert_eq!(path(&dirs), "/home/u/.local/share/local/novelnote_admin.sock");
    assert!(!AdminSocketPath::default_falls_back_to_state_dir(&dirs, Platform::Linux));
}

#[test]
fn socket_is_a_named_pipe_on_windows() {
    let default = AdminSocketPath::default(&dirs(), Platform::Windows);
    assert_eq!(default.as_path().display(Platform::Linux), "\\\\.\\pipe\\NovelNote_Admin");
    assert!(AdminSocketPath::try_from(default.as_path().duplicate(), Platform::Windows).is_ok());
    let path = AdminSocketPath::from_str("\\\\.\\pipe\\other", Platform::Windows);
    assert_eq!(path.expect("a pipe").as_path().display(Platform::Linux), "\\\\.\\pipe\\other");
    for path in ["", "C:\\socket", "\\\\.\\pipe"] {
        let error = AdminSocketPath::from_str(path, Platform::Windows).expect_err("no pipe");
        assert_eq!(
            error.message(),
            "admin socket path must start with `\\\\.\\pipe\\` on Windows"
        );
        assert!(AdminSocketPath::from_str(path, Platform::Linux).is_ok());
        assert!(AdminSocketPath::try_from(FsPath::new(path), Platform::Windows).is_err());
    }
}

#[test]
fn admin_server_is_bound_after_its_directory_is_created() {
    let (socket, mut state, step) = admin(true, Some("/run/a/b.sock"))
        .into_server(&dirs(), Platform::Linux)
        .expect("enabled");
    assert_eq!(socket.path.as_path().display(Platform::Linux), "/run/a/b.sock");
    assert_eq!(socket.timeout.as_secs(), 5);
    assert_eq!(step, IntoServerStep::CheckDirectory);
    assert_eq!(
        state.step(IntoServerEvent::Parent { is_directory: false }),
        IntoServerStep::CreateDirectory
    );
    assert_eq!(state.step(IntoServerEvent::Succeeded), IntoServerStep::Bind);
    assert_eq!(state.step(IntoServerEvent::Succeeded), IntoServerStep::Finish(Ok(())));
    assert_eq!(state.step(IntoServerEvent::Succeeded), IntoServerStep::Idle);
}

#[test]
fn existing_socket_directory_is_left_alone() {
    for event in [IntoServerEvent::Parent { is_directory: true }, IntoServerEvent::NoParent] {
        let mut state = IntoServer::CheckingDirectory;
        assert_eq!(state.step(event), IntoServerStep::Bind);
    }
    let (_, state, step) =
        admin(true, None).into_server(&dirs(), Platform::Windows).expect("enabled");
    assert_eq!((state, step), (IntoServer::Binding, IntoServerStep::Bind));
}

#[test]
fn disabled_admin_socket_is_not_bound() {
    assert!(admin(false, None).into_server(&dirs(), Platform::Linux).is_none());
}

#[test]
fn failures_of_the_admin_server_are_told_apart() {
    let directory = FsPath::new("/run/a");
    let mut state = IntoServer::CreatingDirectory;
    let error = AdminServerError::CreateDirectory;
    assert_eq!(state.step(IntoServerEvent::Failed), IntoServerStep::Finish(Err(error)));
    assert_eq!(
        error.message(&directory, Platform::Linux),
        "error creating socket path directory `/run/a`"
    );
    let mut state = IntoServer::Binding;
    let error = AdminServerError::Bind;
    assert_eq!(state.step(IntoServerEvent::Failed), IntoServerStep::Finish(Err(error)));
    assert_eq!(error.message(&directory, Platform::Linux), "error binding admin server");
}

#[test]
fn client_connects_and_then_makes_its_request() {
    let (socket, mut session, step) = admin(true, None).into_client(&dirs(), Platform::Linux);
    let socket = socket.expect("enabled");
    assert_eq!(
        socket.path.as_path().display(Platform::Linux),
        "/run/user/1000/novelnote/novelnote_admin.sock"
    );
    assert_eq!(step, ClientStep::Connect);
    assert_eq!(session.step(true), ClientStep::Request);
    assert_eq!(session.step(true), ClientStep::Finish(Ok(())));
    assert_eq!(session.step(true), ClientStep::Idle);
}

#[test]
fn failures_of_a_client_are_told_apart() {
    let (socket, mut session, step) = admin(false, None).into_client(&dirs(), Platform::Linux);
    assert!(socket.is_none());
    assert_eq!(step, ClientStep::Finish(Err(ClientError::Disabled)));
    assert_eq!(session.step(true), ClientStep::Idle);
    assert_eq!(ClientError::Disabled.message(), Some("admin socket is disabled"));
    assert_eq!(
        ClientError::Disabled.suggestion(),
        Some("set `admin.enabled = true` in config or use `--enable-admin-socket true`")
    );

    let mut session = ClientSession::Connecting;
    assert_eq!(session.step(false), ClientStep::Finish(Err(ClientError::Connect)));
    assert_eq!(ClientError::Connect.message(), Some("error connecting to admin socket"));
    assert_eq!(
        ClientError::Connect.suggestion(),
        Some("ensure that the NovelNote server is running")
    );

    let mut session = ClientSession::Requesting;
    assert_eq!(session.step(false), ClientStep::Finish(Err(ClientError::Request)));
    assert_eq!(ClientError::Request.message(), None);
    assert_eq!(ClientError::Request.suggestion(), None);
}

fn database(directory: Option<&str>, backup: Option<&str>) -> DatabaseConfig {
    DatabaseConfig {
        directory: directory.map(FsPath::new),
        backup: DatabaseBackupConfig {
            directory: backup.map(FsPath::new),
            keep_last: KeepLast::new(5).expect("at least one"),
        },
    }
}

#[test]
fn database_directories_have_defaults() {
    let dirs = dirs();
    let linux = Platform::Linux;
    let config = database(None, None);
    assert_eq!(config.directory(&dirs).display(Platform::Linux), "/home/u/.local/share/novelnote");
    assert_eq!(
        config.backup_directory(&dirs, linux).display(Platform::Linux),
        "/home/u/.local/share/novelnote/backup"
    );
    assert_eq!(
        config.path(&dirs, linux).display(Platform::Linux),
        "/home/u/.local/share/novelnote/novelnote.sqlite3"
    );
    let config = database(Some("/db/"), None);
    assert_eq!(config.directory(&dirs).display(Platform::Linux), "/db/");
    assert_eq!(config.backup_directory(&dirs, linux).display(Platform::Linux), "/db/backup");
    assert_eq!(config.path(&dirs, linux).display(Platform::Linux), "/db/novelnote.sqlite3");
    let config = database(Some("/db"), Some("/elsewhere"));
    assert_eq!(config.backup_directory(&dirs, linux).display(Platform::Linux), "/elsewhere");
}

#[test]
fn database_directory_is_created_before_the_database_is_opened() {
    let mut opening = DatabaseOpening::open();
    assert_eq!(opening.step(false), DatabaseOpeningStep::CreateDirectory);
    assert_eq!(opening.step(true), DatabaseOpeningStep::Open);
    assert_eq!(opening.step(true), DatabaseOpeningStep::Finish(Ok(())));
    assert_eq!(opening.step(true), DatabaseOpeningStep::Idle);

    let mut opening = DatabaseOpening::open();
    assert_eq!(opening.step(true), DatabaseOpeningStep::Open);
}

#[test]
fn failures_of_opening_the_database_are_told_apart() {
    let directory = FsPath::new("/db");
    let path = FsPath::new("/db/novelnote.sqlite3");
    let mut opening = DatabaseOpening::CreatingDirectory;
    let error = DatabaseOpeningError::CreateDirectory;
    assert_eq!(opening.step(false), DatabaseOpeningStep::Finish(Err(error)));
    assert_eq!(error.message(&directory, &path, Platform::Linux), "error creating database directory `/db`");
    let mut opening = DatabaseOpening::Opening;
    let error = DatabaseOpeningError::Open;
    assert_eq!(opening.step(false), DatabaseOpeningStep::Finish(Err(error)));
    assert_eq!(
        error.message(&directory, &path, Platform::Linux),
        "error opening database at `/db/novelnote.sqlite3`"
    );
}

#[test]
fn first_asset_directory_that_exists_is_used() {
    let begin = || AssetSearch::default_asset_directory(Platform::MacOs);
    assert_eq!(begin().1, AssetStep::Check(AssetDirectory::System));
    let (mut search, _) = begin();
    assert_eq!(search.step(true), AssetStep::Use(AssetDirectory::System));
    assert_eq!(search.step(true), AssetStep::Idle);
    let (mut search, _) = begin();
    assert_eq!(search.step(false), AssetStep::Check(AssetDirectory::SystemLocal));
    assert_eq!(search.step(true), AssetStep::Use(AssetDirectory::SystemLocal));
    let (mut search, _) = begin();
    search.step(false);
    assert_eq!(search.step(false), AssetStep::Use(AssetDirectory::WorkingDirectory));
    assert_eq!(
        AssetSearch::default_asset_directory(Platform::Windows).1,
        AssetStep::Use(AssetDirectory::WorkingDirectory)
    );
    assert_eq!(AssetDirectory::System.path().display(Platform::Linux), "/usr/share/novelnote/dist");
    assert_eq!(
        AssetDirectory::SystemLocal.path().display(Platform::Linux),
        "/usr/local/share/novelnote/dist"
    );
    assert_eq!(AssetDirectory::WorkingDirectory.path().display(Platform::Linux), "dist");
}

#[test]
fn server_is_made_from_its_config() {
    let config = |asset_directory: Option<&str>| HttpServerConfig {
        bind_address: IpAddress::V4(0),
        port: 8080,
        asset_directory: asset_directory.map(FsPath::new),
    };
    let server = config(None).into_server(FsPath::new("dist"));
    assert_eq!(server.socket_address, SocketAddress { ip: IpAddress::V4(0), port: 8080 });
    assert_eq!(server.asset_directory.display(Platform::Linux), "dist");
    let server = config(Some("/assets")).into_server(FsPath::new("dist"));
    assert_eq!(server.asset_directory.display(Platform::Linux), "/assets");
}

fn log(output: LogOutput, directives: &[&str], directory: Option<&str>) -> LogConfig {
    LogConfig {
        output,
        directives: directives
            .iter()
            .map(|text| LogDirective::from_str(text).expect("a directive"))
            .collect(),
        file_directory: directory.map(FsPath::new),
        max_log_files: 3,
    }
}

#[test]
fn log_directives_are_checked() {
    for text in [
        "info",
        " debug",
        "novelnote=debug",
        "novelnote[span{field=value}]=trace",
        "[span]=warn",
        "größe=info",
        " größe",
        "  ab[é]",
        " é]",
        " é}",
        " é,",
        "[é]",
    ] {
        assert_eq!(LogDirective::from_str(text).expect(text).as_str(), text);
        assert_eq!(LogDirective::parse(text).expect(text).as_str(), text);
    }
    for text in [
        "",
        "!",
        "novelnote=loud",
        "[span",
        "a[b{}]=info",
        " a=é",
        " !é=info",
        " a,é=",
        " [é",
        " [{}é}]",
        " [a{é",
    ] {
        assert!(LogDirective::from_str(text).is_err(), "{text}");
        let error = LogDirective::parse(text).expect_err(text);
        assert!(matches!(error, DirectiveError::Invalid(_)), "{text}");
        assert_eq!(error.message(), None);
    }
}

#[test]
fn directives_that_cannot_be_parsed_are_refused() {
    for text in [
        " é=info",
        " aé=info",
        "  aé=info",
        "\u{3000}é[a]=info",
        " [é]",
        " [a{é}]",
    ] {
        let error = LogDirective::parse(text).expect_err(text);
        assert!(matches!(error, DirectiveError::Unparseable), "{text}");
        assert_eq!(error.message(), Some("invalid filter directive"));
    }
}

#[test]
fn directives_with_fields_are_kept_side_by_side() {
    let filter = log(
        LogOutput::Stdout,
        &["info", "[{user}]=debug", "[{user=1}]=trace", "[{user=2}]=warn", "a[s{x=y}]=error"],
        None,
    )
    .env_filter()
    .to_string();
    let mut held: Vec<&str> = filter.split(',').collect();
    held.sort_unstable();
    assert_eq!(
        held,
        ["[{user=1}]=trace", "[{user=2}]=warn", "[{user}]=debug", "a[s{x=y}]=error", "info"]
    );
    let filter = log(LogOutput::Stdout, &["[{user=1}]=trace", "[{user=1}]=warn"], None);
    assert_eq!(filter.env_filter().to_string(), "[{user=1}]=warn");
}

#[test]
fn later_directives_replace_earlier_ones() {
    let filter = log(LogOutput::Stdout, &["info", "novelnote=debug"], None).env_filter();
    assert_eq!(filter.to_string(), "novelnote=debug,info");
    let filter = log(
        LogOutput::Stdout,
        &["info", "novelnote=debug", "novelnote=trace", "[span]=off", "warn"],
        None,
    )
    .env_filter();
    assert_eq!(filter.to_string(), "novelnote=trace,warn,[span]=off");
    assert_eq!(log(LogOutput::Stdout, &[], None).env_filter().to_string(), "");
}

#[test]
fn log_directory_has_defaults() {
    let mut dirs = dirs();
    let config = log(LogOutput::File, &[], None);
    assert_eq!(config.directory(&dirs).display(Platform::Linux), "/home/u/.local/state/novelnote");
    dirs.state_dir = None;
    assert_eq!(config.directory(&dirs).display(Platform::Linux), "/home/u/.local/share/novelnote");
    let config = log(LogOutput::File, &[], Some("/var/log"));
    assert_eq!(config.directory(&dirs).display(Platform::Linux), "/var/log");
}

#[test]
fn logs_are_written_where_they_should_be() {
    assert_eq!(LogOutput::default(), LogOutput::Stdout);
    assert_eq!(LogOutput::Stdout.layer(), Some(LogLayer::Stdout { timestamps: true }));
    assert_eq!(
        LogOutput::StdoutNoTimestamp.layer(),
        Some(LogLayer::Stdout { timestamps: false })
    );
    assert_eq!(LogOutput::Journald.layer(), Some(LogLayer::Journald));
    assert_eq!(LogOutput::File.layer(), Some(LogLayer::File));
    assert_eq!(LogOutput::Disabled.layer(), None);
}

fn ready(created: bool, logs_to_flush: bool) -> LogStep {
    LogStep::Finish(Ok(LogReady { created, logs_to_flush }))
}

#[test]
fn logs_are_left_to_flush_only_in_files() {
    assert!(LogOutput::File.leaves_logs_to_flush());
    for output in [
        LogOutput::Stdout,
        LogOutput::StdoutNoTimestamp,
        LogOutput::Journald,
        LogOutput::Disabled,
    ] {
        assert!(!output.leaves_logs_to_flush());
    }
}

#[test]
fn logging_is_refused_once_something_is_installed() {
    for (output, answers) in [
        (LogOutput::Stdout, &[false][..]),
        (LogOutput::StdoutNoTimestamp, &[false]),
        (LogOutput::Disabled, &[false]),
        (LogOutput::Journald, &[true, false]),
        (LogOutput::File, &[true, true, false]),
        (LogOutput::File, &[false, true, true, false]),
    ] {
        let (mut init, mut step) = log(output, &[], None).init_logging();
        for answer in answers {
            step = init.step(*answer);
        }
        assert_eq!(step, LogStep::Finish(Err(LogError::Install)));
        assert_eq!(init.step(true), LogStep::Idle);
    }
}

#[test]
fn logging_is_initialized_step_by_step() {
    for output in [LogOutput::Stdout, LogOutput::StdoutNoTimestamp, LogOutput::Disabled] {
        let (mut init, step) = log(output, &[], None).init_logging();
        assert_eq!(step, LogStep::Install);
        assert_eq!(init.step(true), ready(false, false));
        assert_eq!(init.step(true), LogStep::Idle);
    }

    let (mut init, step) = log(LogOutput::Journald, &[], None).init_logging();
    assert_eq!(step, LogStep::ConnectJournald);
    assert_eq!(init.step(true), LogStep::Install);
    assert_eq!(init.step(true), ready(false, false));

    let (mut init, step) = log(LogOutput::File, &[], None).init_logging();
    assert_eq!(step, LogStep::CheckDirectory);
    assert_eq!(init.step(false), LogStep::CreateDirectory);
    assert_eq!(init.step(true), LogStep::OpenFiles);
    assert_eq!(init.step(true), LogStep::Install);
    assert_eq!(init.step(true), ready(true, true));

    let (mut init, _) = log(LogOutput::File, &[], None).init_logging();
    assert_eq!(init.step(true), LogStep::OpenFiles);
    assert_eq!(init.step(true), LogStep::Install);
    assert_eq!(init.step(true), ready(false, true));
}

#[test]
fn failures_of_logging_are_told_apart() {
    let directory = FsPath::new("/var/log");
    for (mut init, error, message) in [
        (
            LogInit::ConnectingJournald,
            LogError::Journald,
            "error connecting to journald socket",
        ),
        (
            LogInit::CreatingDirectory,
            LogError::CreateDirectory,
            "error creating log file directory `/var/log`",
        ),
        (
            LogInit::OpeningFiles { created: true },
            LogError::OpenFiles,
            "error initializing log file appender",
        ),
        (
            LogInit::Installing(LogReady { created: true, logs_to_flush: true }),
            LogError::Install,
            "error initializing tracing subscriber",
        ),
    ] {
        assert_eq!(init.step(false), LogStep::Finish(Err(error)));
        assert_eq!(error.message(&directory, Platform::Linux), message);
        assert_eq!(init.step(true), LogStep::Idle);
    }
}
