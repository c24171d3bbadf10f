//! The commands of the command-line interface.

use crate::config::admin::ClientError;
use crate::config::log::LogOutput;
use crate::path::{shown, FsPath, Platform};
use crate::text::concat3;
use crate::trace::{asked, last_output, lemma_told_one_more, state_after, Machine};
use vstd::prelude::*;

verus! {

/// The `novelnote` command to execute.
#[derive(Debug, Clone, Copy, PartialEq, Eq, Structural)]
pub enum Command {
    /// Start the NovelNote server.
    Serve,

    /// Check to see if the server is running and the database connection is open.
    HealthCheck,

    /// Backup the database.
    Backup,

    /// Generate a sample config file.
    ConfigTemplate,
}

/// How far the execution of a command has come.
#[derive(Debug, Clone, Copy, PartialEq, Eq, Structural)]
pub enum CommandRun {
    /// The config is loaded, to run the servers.
    LoadingConfig,

    /// Logging is initialized.
    InitializingLogging,

    /// The servers run.
    RunningServers {
        /// Whether logs are left to be flushed in the end.
        logs_to_flush: bool,
    },

    /// The admin config is loaded, to check the health of the server.
    LoadingAdminConfig,

    /// The health of the server is checked.
    CheckingHealth,

    /// The database is backed up.
    BackingUp,

    /// The file for the config template is opened.
    OpeningTemplate,

    /// The config template is written.
    WritingTemplate,

    /// The command is executed, or something failed.
    Finished,
}

/// What to do next to execute a command.
#[derive(Debug, Clone, Copy, PartialEq, Eq)]
pub enum CommandStep {
    /// Load the config.
    LoadConfig,

    /// Initialize logging.
    InitLogging,

    /// Run the servers.
    RunServers,

    /// Load the admin config.
    LoadAdminConfig,

    /// Check the health of the server over the admin socket.
    CheckHealth,

    /// Back up the database and remove old backups.
    Backup,

    /// Open the file for the config template.
    OpenTemplate,

    /// Write the config template.
    WriteTemplate,

    /// Stop, with this result.
    Finish(Result<CommandDone, CommandError>),

    /// Nothing, the command was finished before.
    Idle,
}

/// What is left to do once a command is executed.
#[derive(Debug, Clone, Copy, PartialEq, Eq, Structural)]
pub enum CommandDone {
    /// Flush the logs, which were written to files, as the last thing.
    FlushLogs,

    /// Tell the user that the config template is written.
    TellTemplateWritten,

    /// Nothing.
    Nothing,
}

/// What came of a step in executing a command.
#[derive(Debug, Clone, Copy, PartialEq, Eq, Structural)]
pub enum CommandEvent {
    /// What was asked for succeeded.
    Succeeded,

    /// Logging is initialized.
    LoggingReady {
        /// Whether logs are left to be flushed in the end.
        logs_to_flush: bool,
    },

    /// What was asked for failed.
    Failed,

    /// The request over the admin socket failed.
    RequestFailed(ClientError),
}

impl CommandEvent {
    /// Whether what was asked for succeeded.
    pub open spec fn is_success(self) -> bool {
        self is Succeeded || self is LoggingReady
    }

    /// Whether logs are left to be flushed in the end.
    pub open spec fn leaves_logs_to_flush(self) -> bool {
        self == (CommandEvent::LoggingReady { logs_to_flush: true })
    }
}

/// Error returned when executing a command fails.
#[derive(Debug, Clone, Copy, PartialEq, Eq, Structural)]
pub enum CommandError {
    /// There is no home directory, so the project's directories are unknown.
    NoHomeDirectory,

    /// The config cannot be loaded.
    LoadConfig,

    /// Logging cannot be initialized.
    InitLogging,

    /// Running the servers failed. Whoever did it describes the error.
    RunServers,

    /// The admin config cannot be loaded.
    LoadAdminConfig,

    /// The health check failed.
    HealthCheck(ClientError),

    /// Backing up the database failed. Whoever did it describes the error.
    Backup,

    /// The file for the config template cannot be opened.
    OpenTemplate,

    /// The config template cannot be written.
    WriteTemplate,
}

impl CommandError {
    /// Describe the error, if there is anything to add to its source.
    ///
    /// `template` is the path of the config template.
    pub fn message(&self, template: &FsPath, platform: Platform) -> (res: Option<String>)
        ensures
            match *self {
                CommandError::NoHomeDirectory => res matches Some(text) && text@
                    == "could not determine home directory"@,
                CommandError::LoadConfig => res matches Some(text) && text@
                    == "error loading config"@,
                CommandError::InitLogging => res matches Some(text) && text@
                    == "error initializing logging"@,
                CommandError::LoadAdminConfig => res matches Some(text) && text@
                    == "error loading admin config"@,
                CommandError::HealthCheck(ClientError::Request) => res matches Some(text) && text@
                    == "error performing health check"@,
                CommandError::OpenTemplate => res matches Some(text) && text@
                    == "error opening file `"@ + shown(template@, platform)
                    + "` for writing the config template"@,
                CommandError::WriteTemplate => res matches Some(text) && text@
                    == "error writing config template to file `"@ + shown(template@, platform) + "`"@,
                CommandError::RunServers | CommandError::HealthCheck(_) | CommandError::Backup =>
                    res is None,
            },
    {
        match self {
            CommandError::NoHomeDirectory => Some(
                "could not determine home directory".to_string(),
            ),
            CommandError::LoadConfig => Some("error loading config".to_string()),
            CommandError::InitLogging => Some("error initializing logging".to_string()),
            CommandError::LoadAdminConfig => Some("error loading admin config".to_string()),
            CommandError::HealthCheck(ClientError::Request) => Some(
                "error performing health check".to_string(),
            ),
            CommandError::OpenTemplate => Some(
                concat3(
                    "error opening file `",
                    template.display(platform).as_str(),
                    "` for writing the config template",
                ),
            ),
            CommandError::WriteTemplate => Some(
                concat3(
                    "error writing config template to file `",
                    template.display(platform).as_str(),
                    "`",
                ),
            ),
            CommandError::RunServers | CommandError::HealthCheck(_) | CommandError::Backup => None,
        }
    }
}

/// What the user is told once the config template is written.
pub fn template_written_message(template: &FsPath, platform: Platform) -> (res: String)
    ensures
        res@ == "Wrote config template to file `"@ + shown(template@, platform) + "`"@,
{
    concat3("Wrote config template to file `", template.display(platform).as_str(), "`")
}

/// The execution ends with `error`.
pub open spec fn fail_with(error: CommandError) -> (CommandRun, CommandStep) {
    (CommandRun::Finished, CommandStep::Finish(Err(error)))
}

/// The execution ends well, with `done` left to do.
pub open spec fn finish_with(done: CommandDone) -> (CommandRun, CommandStep) {
    (CommandRun::Finished, CommandStep::Finish(Ok(done)))
}

impl Machine for CommandRun {
    type Input = CommandEvent;

    type Output = CommandStep;

    open spec fn next(self, input: CommandEvent) -> (CommandRun, CommandStep) {
        if input.is_success() {
            match self {
                CommandRun::LoadingConfig => (
                    CommandRun::InitializingLogging,
                    CommandStep::InitLogging,
                ),
                CommandRun::InitializingLogging => (
                    CommandRun::RunningServers { logs_to_flush: input.leaves_logs_to_flush() },
                    CommandStep::RunServers,
                ),
                CommandRun::LoadingAdminConfig => (
                    CommandRun::CheckingHealth,
                    CommandStep::CheckHealth,
                ),
                CommandRun::OpeningTemplate => (
                    CommandRun::WritingTemplate,
                    CommandStep::WriteTemplate,
                ),
                CommandRun::RunningServers { logs_to_flush: true } => finish_with(
                    CommandDone::FlushLogs,
                ),
                CommandRun::WritingTemplate => finish_with(CommandDone::TellTemplateWritten),
                CommandRun::RunningServers { logs_to_flush: false }
                | CommandRun::CheckingHealth
                | CommandRun::BackingUp => finish_with(CommandDone::Nothing),
                CommandRun::Finished => (CommandRun::Finished, CommandStep::Idle),
            }
        } else {
            match self {
                CommandRun::LoadingConfig => fail_with(CommandError::LoadConfig),
                CommandRun::InitializingLogging => fail_with(CommandError::InitLogging),
                CommandRun::RunningServers { .. } => fail_with(CommandError::RunServers),
                CommandRun::LoadingAdminConfig => fail_with(CommandError::LoadAdminConfig),
                CommandRun::CheckingHealth => fail_with(
                    CommandError::HealthCheck(
                        match input {
                            CommandEvent::RequestFailed(error) => error,
                            _ => ClientError::Request,
                        },
                    ),
                ),
                CommandRun::BackingUp => fail_with(CommandError::Backup),
                CommandRun::OpeningTemplate => fail_with(CommandError::OpenTemplate),
                CommandRun::WritingTemplate => fail_with(CommandError::WriteTemplate),
                CommandRun::Finished => (CommandRun::Finished, CommandStep::Idle),
            }
        }
    }
}

impl Command {
    /// How the execution of the command begins, given whether there is a home directory.
    pub open spec fn begin(self, has_home: bool) -> (CommandRun, CommandStep) {
        if !has_home {
            fail_with(CommandError::NoHomeDirectory)
        } else {
            match self {
                Command::Serve => (CommandRun::LoadingConfig, CommandStep::LoadConfig),
                Command::HealthCheck => (
                    CommandRun::LoadingAdminConfig,
                    CommandStep::LoadAdminConfig,
                ),
                Command::Backup => (CommandRun::BackingUp, CommandStep::Backup),
                Command::ConfigTemplate => (CommandRun::OpeningTemplate, CommandStep::OpenTemplate),
            }
        }
    }

    /// Begin to execute the command, given whether there is a home directory.
    pub fn run(self, has_home: bool) -> (res: (CommandRun, CommandStep))
        ensures
            res == self.begin(has_home),
    {
        if !has_home {
            return (
                CommandRun::Finished,
                CommandStep::Finish(Err(CommandError::NoHomeDirectory)),
            );
        }
        match self {
            Command::Serve => (CommandRun::LoadingConfig, CommandStep::LoadConfig),
            Command::HealthCheck => (CommandRun::LoadingAdminConfig, CommandStep::LoadAdminConfig),
            Command::Backup => (CommandRun::BackingUp, CommandStep::Backup),
            Command::ConfigTemplate => (CommandRun::OpeningTemplate, CommandStep::OpenTemplate),
        }
    }
}

impl CommandRun {
    fn succeed(&mut self, logs_to_flush: bool) -> (res: CommandStep)
        ensures
            (*final(self), res) == old(self).next(CommandEvent::LoggingReady { logs_to_flush }),
    {
        let done = match *self {
            CommandRun::LoadingConfig => {
                *self = CommandRun::InitializingLogging;
                return CommandStep::InitLogging;
            },
            CommandRun::InitializingLogging => {
                *self = CommandRun::RunningServers { logs_to_flush };
                return CommandStep::RunServers;
            },
            CommandRun::LoadingAdminConfig => {
                *self = CommandRun::CheckingHealth;
                return CommandStep::CheckHealth;
            },
            CommandRun::OpeningTemplate => {
                *self = CommandRun::WritingTemplate;
                return CommandStep::WriteTemplate;
            },
            CommandRun::Finished => {
                return CommandStep::Idle;
            },
            CommandRun::RunningServers { logs_to_flush: true } => CommandDone::FlushLogs,
            CommandRun::WritingTemplate => CommandDone::TellTemplateWritten,
            CommandRun::RunningServers { logs_to_flush: false }
            | CommandRun::CheckingHealth
            | CommandRun::BackingUp => CommandDone::Nothing,
        };
        *self = CommandRun::Finished;
        CommandStep::Finish(Ok(done))
    }

    fn fail(&mut self, request: ClientError) -> (res: CommandStep)
        ensures
            (*final(self), res) == old(self).next(CommandEvent::RequestFailed(request)),
    {
        let error = match *self {
            CommandRun::LoadingConfig => CommandError::LoadConfig,
            CommandRun::InitializingLogging => CommandError::InitLogging,
            CommandRun::RunningServers { .. } => CommandError::RunServers,
            CommandRun::LoadingAdminConfig => CommandError::LoadAdminConfig,
            CommandRun::CheckingHealth => CommandError::HealthCheck(request),
            CommandRun::BackingUp => CommandError::Backup,
            CommandRun::OpeningTemplate => CommandError::OpenTemplate,
            CommandRun::WritingTemplate => CommandError::WriteTemplate,
            CommandRun::Finished => {
                return CommandStep::Idle;
            },
        };
        *self = CommandRun::Finished;
        CommandStep::Finish(Err(error))
    }

    /// Take in what came of the last step and determine what to do next.
    pub fn step(&mut self, event: CommandEvent) -> (res: CommandStep)
        ensures
            (*final(self), res) == old(self).next(event),
    {
        match event {
            CommandEvent::Succeeded => self.succeed(false),
            CommandEvent::LoggingReady { logs_to_flush } => self.succeed(logs_to_flush),
            CommandEvent::Failed => self.fail(ClientError::Request),
            CommandEvent::RequestFailed(error) => self.fail(error),
        }
    }
}

proof fn lemma_finished_after_three(command: Command, has_home: bool, events: Seq<CommandEvent>)
    requires
        events.len() >= 3,
    ensures
        state_after(command.begin(has_home).0, events) == CommandRun::Finished,
    decreases events.len(),
{
    reveal_with_fuel(state_after, 4);
    if events.len() > 3 {
        lemma_finished_after_three(command, has_home, events.drop_last());
    }
}

/// The servers run if and only if the command is to start them, the config was loaded and logging
/// was initialized.
pub proof fn servers_run_after_config_and_logging(
    command: Command,
    has_home: bool,
    events: Seq<CommandEvent>,
)
    requires
        events.len() > 0,
    ensures
        last_output(command.begin(has_home).0, events) == CommandStep::RunServers <==> {
            &&& has_home
            &&& command == Command::Serve
            &&& events.len() == 2
            &&& events[0].is_success()
            &&& events[1].is_success()
        },
{
    reveal_with_fuel(state_after, 4);
    if events.len() > 3 {
        lemma_finished_after_three(command, has_home, events.drop_last());
    }
}

/// How many steps the command takes.
pub open spec fn steps(command: Command) -> nat {
    match command {
        Command::Serve => 3,
        Command::HealthCheck | Command::ConfigTemplate => 2,
        Command::Backup => 1,
    }
}

/// What is left to do once the command is executed, given what came of its steps.
pub open spec fn left_to_do(command: Command, events: Seq<CommandEvent>) -> CommandDone {
    match command {
        Command::Serve => if events[1].leaves_logs_to_flush() {
            CommandDone::FlushLogs
        } else {
            CommandDone::Nothing
        },
        Command::ConfigTemplate => CommandDone::TellTemplateWritten,
        _ => CommandDone::Nothing,
    }
}

/// A command is executed if and only if each of its steps succeeds. What is left to do then depends
/// on the command, and for the servers on how logging was initialized.
pub proof fn command_succeeds_if_each_step_does(
    command: Command,
    events: Seq<CommandEvent>,
    done: CommandDone,
)
    requires
        events.len() > 0,
    ensures
        last_output(command.begin(true).0, events) == CommandStep::Finish(Ok(done)) <==> {
            &&& events.len() == steps(command)
            &&& forall|i: int| 0 <= i < events.len() ==> (#[trigger] events[i]).is_success()
            &&& done == left_to_do(command, events)
        },
{
    reveal_with_fuel(state_after, 4);
    if events.len() > 3 {
        lemma_finished_after_three(command, true, events.drop_last());
    }
}

/// The events of a command whose steps succeed, if logging is initialized for `output`.
pub open spec fn successes(command: Command, output: LogOutput) -> Seq<CommandEvent> {
    Seq::new(
        steps(command),
        |i: int|
            if i == 1 && command == Command::Serve {
                CommandEvent::LoggingReady { logs_to_flush: output.leaves_logs_to_flush() }
            } else {
                CommandEvent::Succeeded
            },
    )
}

/// Logs are left to be flushed if and only if the servers ran and logs were written to files.
pub proof fn logs_are_flushed_after_serving_with_log_files(command: Command, output: LogOutput)
    ensures
        last_output(command.begin(true).0, successes(command, output)) == CommandStep::Finish(
            Ok(CommandDone::FlushLogs),
        ) <==> command == Command::Serve && output == LogOutput::File,
{
    let events = successes(command, output);
    command_succeeds_if_each_step_does(command, events, CommandDone::FlushLogs);
    assert forall|i: int| 0 <= i < events.len() implies (#[trigger] events[i]).is_success() by {}
}

/// What is asked for to execute a command, given what was asked for before and what came of it. It
/// begins with an error if there is no home directory, and otherwise with what the command needs
/// first. A failure ends it with an error that tells what failed.
pub proof fn command_follows_its_events(
    command: Command,
    has_home: bool,
    events: Seq<CommandEvent>,
    event: CommandEvent,
)
    ensures
        command.begin(has_home).1 == if !has_home {
            CommandStep::Finish(Err(CommandError::NoHomeDirectory))
        } else {
            match command {
                Command::Serve => CommandStep::LoadConfig,
                Command::HealthCheck => CommandStep::LoadAdminConfig,
                Command::Backup => CommandStep::Backup,
                Command::ConfigTemplate => CommandStep::OpenTemplate,
            }
        },
        ({
            let next = asked(command.begin(has_home), events.push(event));
            let good = event is Succeeded || event is LoggingReady;
            match asked(command.begin(has_home), events) {
                CommandStep::LoadConfig => next == if good {
                    CommandStep::InitLogging
                } else {
                    CommandStep::Finish(Err(CommandError::LoadConfig))
                },
                CommandStep::InitLogging => next == if good {
                    CommandStep::RunServers
                } else {
                    CommandStep::Finish(Err(CommandError::InitLogging))
                },
                CommandStep::RunServers => if good {
                    next matches CommandStep::Finish(Ok(_))
                } else {
                    next == CommandStep::Finish(Err(CommandError::RunServers))
                },
                CommandStep::LoadAdminConfig => next == if good {
                    CommandStep::CheckHealth
                } else {
                    CommandStep::Finish(Err(CommandError::LoadAdminConfig))
                },
                CommandStep::CheckHealth => next == match event {
                    CommandEvent::RequestFailed(error) => CommandStep::Finish(
                        Err(CommandError::HealthCheck(error)),
                    ),
                    CommandEvent::Failed => CommandStep::Finish(
                        Err(CommandError::HealthCheck(ClientError::Request)),
                    ),
                    _ => CommandStep::Finish(Ok(CommandDone::Nothing)),
                },
                CommandStep::Backup => next == if good {
                    CommandStep::Finish(Ok(CommandDone::Nothing))
                } else {
                    CommandStep::Finish(Err(CommandError::Backup))
                },
                CommandStep::OpenTemplate => next == if good {
                    CommandStep::WriteTemplate
                } else {
                    CommandStep::Finish(Err(CommandError::OpenTemplate))
                },
                CommandStep::WriteTemplate => next == if good {
                    CommandStep::Finish(Ok(CommandDone::TellTemplateWritten))
                } else {
                    CommandStep::Finish(Err(CommandError::WriteTemplate))
                },
                CommandStep::Finish(_) | CommandStep::Idle => next == CommandStep::Idle,
            }
        }),
{
    lemma_told_one_more(command.begin(has_home).0, events, event);
}

/// Once the servers have run, logs are flushed if and only if that was said to be left to do when
/// logging was initialized.
pub proof fn logs_are_flushed_if_there_are_any(logs_to_flush: bool, loaded: CommandEvent, ran: CommandEvent)
    requires
        loaded is Succeeded || loaded is LoggingReady,
        ran is Succeeded || ran is LoggingReady,
    ensures
        last_output(
            Command::Serve.begin(true).0,
            seq![loaded, CommandEvent::LoggingReady { logs_to_flush }, ran],
        ) == CommandStep::Finish(
            Ok(
                if logs_to_flush {
                    CommandDone::FlushLogs
                } else {
                    CommandDone::Nothing
                },
            ),
        ),
{
    let events = seq![loaded, CommandEvent::LoggingReady { logs_to_flush }, ran];
    command_succeeds_if_each_step_does(
        Command::Serve,
        events,
        if logs_to_flush {
            CommandDone::FlushLogs
        } else {
            CommandDone::Nothing
        },
    );
    assert forall|i: int| 0 <= i < events.len() implies (#[trigger] events[i]).is_success() by {}
}

/// How a file is opened for writing.
#[derive(Debug, Clone, Copy, PartialEq, Eq, Structural)]
pub struct OpenFileOptions {
    /// Whether the file is written to.
    pub write: bool,

    /// Whether what the file held is discarded.
    pub truncate: bool,

    /// Whether the file must not exist yet.
    pub create_new: bool,

    /// Whether the file is created if it does not exist.
    pub create: bool,
}

impl OpenFileOptions {
    /// How to open a file for writing, optionally overwriting any existing file.
    pub open spec fn spec_new(overwrite: bool) -> OpenFileOptions {
        OpenFileOptions { write: true, truncate: true, create_new: !overwrite, create: overwrite }
    }

    /// How to open a file for writing, optionally overwriting any existing file.
    pub fn new(overwrite: bool) -> (res: OpenFileOptions)
        ensures
            res.write,
            res.truncate,
            res.create_new == !overwrite,
            res.create == overwrite,
            res == OpenFileOptions::spec_new(overwrite),
    {
        OpenFileOptions { write: true, truncate: true, create_new: !overwrite, create: overwrite }
    }
}

/// Error returned when a file cannot be opened for writing.
#[derive(Debug, Clone, Copy, PartialEq, Eq, Structural)]
pub enum OpenFileError {
    /// The file exists and is not to be overwritten.
    AlreadyExists,

    /// Anything else.
    Other,
}

impl OpenFileError {
    /// The error, given whether it is that the file exists.
    pub fn new(already_exists: bool) -> (res: OpenFileError)
        ensures
            res == (if already_exists {
                OpenFileError::AlreadyExists
            } else {
                OpenFileError::Other
            }),
    {
        if already_exists {
            OpenFileError::AlreadyExists
        } else {
            OpenFileError::Other
        }
    }

    /// Describe the error.
    pub fn message(&self) -> (res: &'static str)
        ensures
            res@ == match *self {
                OpenFileError::AlreadyExists => "file already exists, not overwriting it"@,
                OpenFileError::Other => "failed to create/open file"@,
            },
    {
        match self {
            OpenFileError::AlreadyExists => "file already exists, not overwriting it",
            OpenFileError::Other => "failed to create/open file",
        }
    }

    /// Suggest what to do about the error.
    pub fn suggestion(&self) -> (res: &'static str)
        ensures
            res@ == match *self {
                OpenFileError::AlreadyExists => "use `--overwrite` to overwrite an existing file"@,
                OpenFileError::Other =>
                    "make sure the directory exists and you have write permissions for the file"@,
            },
    {
        match self {
            OpenFileError::AlreadyExists => "use `--overwrite` to overwrite an existing file",
            OpenFileError::Other =>
                "make sure the directory exists and you have write permissions for the file",
        }
    }
}

/// A file that is not to be overwritten must not exist, and one that is may. What it held is discarded
/// in any case, and it is created if it does not exist.
pub proof fn existing_file_is_overwritten_only_if_asked_to(overwrite: bool)
    ensures
        ({
            let options = OpenFileOptions::spec_new(overwrite);
            &&& options.create_new <==> !overwrite
            &&& options.create || options.create_new
            &&& options.write && options.truncate
        }),
{
}

} // verus!
