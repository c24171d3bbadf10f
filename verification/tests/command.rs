use novelnote::command::{
    template_written_message, Command, CommandDone, CommandError, CommandEvent, CommandRun,
    CommandStep, OpenFileError, OpenFileOptions,
};
use novelnote::config::admin::ClientError;
use novelnote::path::{FsPath, Platform};
use novelnote::serve::{RunServers, ServeError, ServeEvent, ServeStep, ShutdownSignal};
use novelnote::server::{
    health_check, IpAddress, RunPhase, RunStep, Server, ServerError, ServerRun, SocketAddress,
};

fn io_error() -> std::io::Error {
    std::io::Error::other("broken")
}

fn steps(command: Command, events: &[CommandEvent]) -> Vec<CommandStep> {
    let (mut run, first) = command.run(true);
    let mut steps = vec![first];
    for event in events {
        steps.push(run.step(*event));
    }
    steps
}

#[test]
fn servers_run_once_config_and_logging_are_there() {
    for (logs_to_flush, done) in
        [(true, CommandDone::FlushLogs), (false, CommandDone::Nothing)]
    {
        assert_eq!(
            steps(
                Command::Serve,
                &[
                    CommandEvent::Succeeded,
                    CommandEvent::LoggingReady { logs_to_flush },
                    CommandEvent::Succeeded,
                    CommandEvent::Succeeded,
                ]
            ),
            [
                CommandStep::LoadConfig,
                CommandStep::InitLogging,
                CommandStep::RunServers,
                CommandStep::Finish(Ok(done)),
                CommandStep::Idle,
            ]
        );
    }
}

#[test]
fn other_commands_run_through_their_steps() {
    assert_eq!(
        steps(Command::HealthCheck, &[CommandEvent::Succeeded; 2]),
        [
            CommandStep::LoadAdminConfig,
            CommandStep::CheckHealth,
            CommandStep::Finish(Ok(CommandDone::Nothing)),
        ]
    );
    assert_eq!(
        steps(Command::Backup, &[CommandEvent::Succeeded]),
        [CommandStep::Backup, CommandStep::Finish(Ok(CommandDone::Nothing))]
    );
    assert_eq!(
        steps(Command::ConfigTemplate, &[CommandEvent::Succeeded; 2]),
        [
            CommandStep::OpenTemplate,
            CommandStep::WriteTemplate,
            CommandStep::Finish(Ok(CommandDone::TellTemplateWritten)),
        ]
    );
    assert_eq!(
        template_written_message(&FsPath::new("novelnote.toml"), Platform::Linux),
        "Wrote config template to file `novelnote.toml`"
    );
}

#[test]
fn nothing_is_done_without_a_home_directory() {
    for command in
        [Command::Serve, Command::HealthCheck, Command::Backup, Command::ConfigTemplate]
    {
        let (mut run, step) = command.run(false);
        assert_eq!(step, CommandStep::Finish(Err(CommandError::NoHomeDirectory)));
        assert_eq!(run.step(CommandEvent::Succeeded), CommandStep::Idle);
    }
}

#[test]
fn failures_of_commands_are_told_apart() {
    let template = FsPath::new("n.toml");
    for (mut run, error, message) in [
        (CommandRun::LoadingConfig, CommandError::LoadConfig, Some("error loading config")),
        (
            CommandRun::InitializingLogging,
            CommandError::InitLogging,
            Some("error initializing logging"),
        ),
        (
            CommandRun::RunningServers { logs_to_flush: true },
            CommandError::RunServers,
            None,
        ),
        (
            CommandRun::LoadingAdminConfig,
            CommandError::LoadAdminConfig,
            Some("error loading admin config"),
        ),
        (
            CommandRun::CheckingHealth,
            CommandError::HealthCheck(ClientError::Request),
            Some("error performing health check"),
        ),
        (CommandRun::BackingUp, CommandError::Backup, None),
        (
            CommandRun::OpeningTemplate,
            CommandError::OpenTemplate,
            Some("error opening file `n.toml` for writing the config template"),
        ),
        (
            CommandRun::WritingTemplate,
            CommandError::WriteTemplate,
            Some("error writing config template to file `n.toml`"),
        ),
    ] {
        assert_eq!(run.step(CommandEvent::Failed), CommandStep::Finish(Err(error)));
        assert_eq!(error.message(&template, Platform::Linux).as_deref(), message);
        assert_eq!(run, CommandRun::Finished);
    }
    assert_eq!(
        CommandError::NoHomeDirectory.message(&template, Platform::Linux).as_deref(),
        Some("could not determine home directory")
    );
    let mut run = CommandRun::CheckingHealth;
    let error = CommandError::HealthCheck(ClientError::Connect);
    assert_eq!(
        run.step(CommandEvent::RequestFailed(ClientError::Connect)),
        CommandStep::Finish(Err(error))
    );
    assert_eq!(error.message(&template, Platform::Linux), None);
}

#[test]
fn files_are_overwritten_only_if_asked_to() {
    assert_eq!(
        OpenFileOptions::new(false),
        OpenFileOptions { write: true, truncate: true, create_new: true, create: false }
    );
    assert_eq!(
        OpenFileOptions::new(true),
        OpenFileOptions { write: true, truncate: true, create_new: false, create: true }
    );
    let error = OpenFileError::new(true);
    assert_eq!(error.message(), "file already exists, not overwriting it");
    assert_eq!(error.suggestion(), "use `--overwrite` to overwrite an existing file");
    let error = OpenFileError::new(false);
    assert_eq!(error.message(), "failed to create/open file");
    assert_eq!(
        error.suggestion(),
        "make sure the directory exists and you have write permissions for the file"
    );
}

#[test]
fn database_is_closed_when_both_servers_have_stopped() {
    for last in [ServeEvent::HttpStopped, ServeEvent::AdminStopped] {
        let first = if last == ServeEvent::HttpStopped {
            ServeEvent::AdminStopped
        } else {
            ServeEvent::HttpStopped
        };
        let mut run = RunServers::run_servers();
        assert_eq!(run.step(ServeEvent::Succeeded), ServeStep::BindAdmin);
        assert_eq!(
            run.step(ServeEvent::AdminBound { enabled: true }),
            ServeStep::Start { admin: true }
        );
        assert_eq!(run.step(first), ServeStep::Wait);
        assert_eq!(run.step(last), ServeStep::CloseDatabase);
        assert_eq!(run.step(ServeEvent::Succeeded), ServeStep::Finish(Ok(())));
        assert_eq!(run.step(ServeEvent::Succeeded), ServeStep::Idle);
    }
}

#[test]
fn admin_server_need_not_run() {
    let mut run = RunServers::BindingAdmin;
    assert_eq!(
        run.step(ServeEvent::AdminBound { enabled: false }),
        ServeStep::Start { admin: false }
    );
    assert_eq!(run.step(ServeEvent::HttpStopped), ServeStep::CloseDatabase);
}

#[test]
fn failures_of_serving_are_told_apart() {
    let serving = RunServers::Serving { http_stopped: false, admin_stopped: false };
    for (mut run, event, error, message) in [
        (
            RunServers::OpeningDatabase,
            ServeEvent::Failed,
            ServeError::OpenDatabase,
            Some("error opening database"),
        ),
        (RunServers::BindingAdmin, ServeEvent::Failed, ServeError::BindAdmin, None),
        (serving, ServeEvent::HttpFailed, ServeError::Http, Some("error with HTTP server")),
        (
            serving,
            ServeEvent::HttpPanicked,
            ServeError::HttpPanicked,
            Some("HTTP server panicked"),
        ),
        (
            serving,
            ServeEvent::AdminPanicked,
            ServeError::AdminPanicked,
            Some("admin server panicked"),
        ),
        (
            RunServers::ClosingDatabase,
            ServeEvent::Failed,
            ServeError::CloseDatabase,
            Some("error closing database"),
        ),
    ] {
        assert_eq!(run.step(event), ServeStep::Finish(Err(error)));
        assert_eq!(error.message(), message);
        assert_eq!(run.step(ServeEvent::HttpStopped), ServeStep::Idle);
    }
}

#[test]
fn signals_are_announced() {
    assert_eq!(ShutdownSignal::Interrupt.message(), "SIGINT received, shutting down...");
    assert_eq!(ShutdownSignal::Terminate.message(), "SIGTERM received, shutting down...");
}

fn server_run() -> ServerRun {
    let socket_address = SocketAddress { ip: IpAddress::V4(0x7f00_0001), port: 8080 };
    let server = Server { socket_address, asset_directory: FsPath::new("dist") };
    let run = server.run();
    assert_eq!(run, ServerRun { phase: RunPhase::Binding, socket_address });
    run
}

#[test]
fn http_server_is_bound_and_serves() {
    let mut run = server_run();
    assert!(matches!(run.step(Ok(())), RunStep::LookUpAddress));
    assert!(matches!(run.step(Ok(())), RunStep::Serve));
    assert!(matches!(run.step(Ok(())), RunStep::Finish(Ok(()))));
    assert!(matches!(run.step(Ok(())), RunStep::Idle));
    assert_eq!(health_check(), 200);
}

#[test]
fn failures_of_the_http_server_are_told_apart() {
    for steps_before in 0..2 {
        let mut run = server_run();
        for _ in 0..steps_before {
            run.step(Ok(()));
        }
        let RunStep::Finish(Err(error)) = run.step(Err(io_error())) else {
            panic!("not finished");
        };
        assert!(matches!(
            error,
            ServerError::Bind { socket_address: SocketAddress { port: 8080, .. }, .. }
        ));
        assert_eq!(
            error.message("127.0.0.1:8080"),
            "error binding to socket address `127.0.0.1:8080`"
        );
    }
    let mut run = server_run();
    run.step(Ok(()));
    run.step(Ok(()));
    let RunStep::Finish(Err(error)) = run.step(Err(io_error())) else {
        panic!("not finished");
    };
    assert!(matches!(error, ServerError::Listen { .. }));
    assert_eq!(error.message(""), "error listening to TCP stream");
}
