//! SQLite database configuration.

use crate::backup::KeepLast;
use crate::path::{
    is_component, joined, lemma_plain_name, shown, FsPath, Platform, ProjectDirs,
};
use crate::text::concat3;
use crate::trace::{last_output, lemma_told_one_more, state_after, Machine};
use vstd::prelude::*;
use vstd::utf8::*;

verus! {

/// Name of the directory for backups in the database directory.
pub const BACKUP_DIRECTORY_NAME: &'static str = "backup";

/// Name of the database file.
pub const DATABASE_FILE_NAME: &'static str = "novelnote.sqlite3";

/// How many messages to the database connection are kept before senders have to wait.
pub const DATABASE_BUFFER: usize = 100;

proof fn lemma_names()
    ensures
        is_component(encode_utf8(BACKUP_DIRECTORY_NAME@)),
        is_component(encode_utf8(DATABASE_FILE_NAME@)),
{
    reveal_strlit("backup");
    reveal_strlit("novelnote.sqlite3");
    lemma_plain_name(BACKUP_DIRECTORY_NAME@);
    lemma_plain_name(DATABASE_FILE_NAME@);
}

/// Database backup configuration. The `[database.backup]` section in a config file.
#[derive(Debug)]
pub struct DatabaseBackupConfig {
    /// Path to the directory where the database backups are placed.
    pub directory: Option<FsPath>,

    /// How many database backups to keep.
    pub keep_last: KeepLast,
}

/// SQLite database configuration. The `[database]` section in a config file.
#[derive(Debug)]
pub struct DatabaseConfig {
    /// Path to the directory where the SQLite database file is placed.
    pub directory: Option<FsPath>,

    /// Database backup configuration.
    pub backup: DatabaseBackupConfig,
}

impl DatabaseConfig {
    /// The database directory: the data directory, unless one is configured.
    pub open spec fn directory_in(self, dirs: ProjectDirs) -> Seq<u8> {
        match self.directory {
            Some(directory) => directory@,
            None => dirs.data_dir@,
        }
    }

    /// The backup directory: one in the database directory, unless one is configured.
    pub open spec fn backup_directory_in(self, dirs: ProjectDirs, platform: Platform) -> Seq<u8> {
        match self.backup.directory {
            Some(directory) => directory@,
            None => joined(
                self.directory_in(dirs),
                encode_utf8(BACKUP_DIRECTORY_NAME@),
                platform,
            ),
        }
    }

    /// Get the set database directory or the default.
    pub fn directory<'a>(&'a self, dirs: &'a ProjectDirs) -> (res: &'a FsPath)
        ensures
            res@ == self.directory_in(*dirs),
            self.directory matches Some(directory) ==> res@ == directory@,
            self.directory is None ==> res@ == dirs.data_dir@,
    {
        match &self.directory {
            Some(directory) => directory,
            None => &dirs.data_dir,
        }
    }

    /// Get the set database backup directory or the default.
    pub fn backup_directory(&self, dirs: &ProjectDirs, platform: Platform) -> (res: FsPath)
        ensures
            res@ == self.backup_directory_in(*dirs, platform),
            self.backup.directory matches Some(directory) ==> res@ == directory@,
    {
        proof {
            lemma_names();
        }
        match &self.backup.directory {
            Some(directory) => directory.duplicate(),
            None => self.directory(dirs).join(BACKUP_DIRECTORY_NAME, platform),
        }
    }

    /// The path of the database file.
    pub open spec fn path_in(self, dirs: ProjectDirs, platform: Platform) -> Seq<u8> {
        joined(self.directory_in(dirs), encode_utf8(DATABASE_FILE_NAME@), platform)
    }

    /// The path of the database file.
    pub fn path(&self, dirs: &ProjectDirs, platform: Platform) -> (res: FsPath)
        ensures
            res@ == joined(self.directory_in(*dirs), encode_utf8(DATABASE_FILE_NAME@), platform),
            res@ == self.path_in(*dirs, platform),
    {
        proof {
            lemma_names();
        }
        self.directory(dirs).join(DATABASE_FILE_NAME, platform)
    }
}

/// A database directory that is configured is the one that is used, wherever the project's directories
/// are. Only if none is, the project's data directory is used.
pub proof fn configured_database_directory_is_used(config: DatabaseConfig, dirs: ProjectDirs)
    ensures
        config.directory matches Some(directory) ==> config.directory_in(dirs) == directory@,
        config.directory is None ==> config.directory_in(dirs) == dirs.data_dir@,
{
}

/// A backup directory that is configured is the one that is used, wherever the database and the
/// project's directories are. Only if none is, `backup` in the database directory is used.
pub proof fn configured_backup_directory_is_used(
    config: DatabaseConfig,
    dirs: ProjectDirs,
    platform: Platform,
)
    ensures
        config.backup.directory matches Some(directory) ==> config.backup_directory_in(
            dirs,
            platform,
        ) == directory@,
        config.backup.directory is None ==> (config.directory matches Some(directory)
            ==> config.backup_directory_in(dirs, platform) == joined(
            directory@,
            encode_utf8("backup"@),
            platform,
        )),
        config.backup.directory is None && config.directory is None ==> config.backup_directory_in(
            dirs,
            platform,
        ) == joined(dirs.data_dir@, encode_utf8("backup"@), platform),
{
}

/// The database is the file `novelnote.sqlite3` in the database directory, wherever its backups are.
pub proof fn database_is_in_its_directory(
    config: DatabaseConfig,
    dirs: ProjectDirs,
    platform: Platform,
)
    ensures
        config.directory matches Some(directory) ==> config.path_in(dirs, platform) == joined(
            directory@,
            encode_utf8("novelnote.sqlite3"@),
            platform,
        ),
        config.directory is None ==> config.path_in(dirs, platform) == joined(
            dirs.data_dir@,
            encode_utf8("novelnote.sqlite3"@),
            platform,
        ),
{
}

/// How far the opening of the database has come.
#[derive(Debug, Clone, Copy, PartialEq, Eq, Structural)]
pub enum DatabaseOpening {
    /// It is looked up whether the database directory exists.
    CheckingDirectory,

    /// The database directory is created.
    CreatingDirectory,

    /// The database is opened.
    Opening,

    /// The database is open, or something failed.
    Finished,
}

/// What to do next to open the database.
#[derive(Debug, Clone, Copy, PartialEq, Eq)]
pub enum DatabaseOpeningStep {
    /// Create the database directory, with all that lead to it.
    CreateDirectory,

    /// Open the database.
    Open,

    /// Stop, with this result.
    Finish(Result<(), DatabaseOpeningError>),

    /// Nothing, the opening was finished before.
    Idle,
}

/// Error returned when the database cannot be opened.
#[derive(Debug, Clone, Copy, PartialEq, Eq, Structural)]
pub enum DatabaseOpeningError {
    /// The database directory cannot be created.
    CreateDirectory,

    /// The database cannot be opened.
    Open,
}

impl DatabaseOpeningError {
    /// Describe the error, given the database directory and the path of the database.
    pub fn message(&self, directory: &FsPath, path: &FsPath, platform: Platform) -> (res: String)
        ensures
            res@ == match *self {
                DatabaseOpeningError::CreateDirectory => "error creating database directory `"@
                    + shown(directory@, platform) + "`"@,
                DatabaseOpeningError::Open => "error opening database at `"@ + shown(path@, platform) + "`"@,
            },
    {
        match self {
            DatabaseOpeningError::CreateDirectory => concat3(
                "error creating database directory `",
                directory.display(platform).as_str(),
                "`",
            ),
            DatabaseOpeningError::Open => concat3(
                "error opening database at `",
                path.display(platform).as_str(),
                "`",
            ),
        }
    }
}

impl Machine for DatabaseOpening {
    type Input = bool;

    type Output = DatabaseOpeningStep;

    open spec fn next(self, input: bool) -> (DatabaseOpening, DatabaseOpeningStep) {
        match (self, input) {
            (DatabaseOpening::CheckingDirectory, false) => (
                DatabaseOpening::CreatingDirectory,
                DatabaseOpeningStep::CreateDirectory,
            ),
            (DatabaseOpening::CreatingDirectory, false) => (
                DatabaseOpening::Finished,
                DatabaseOpeningStep::Finish(Err(DatabaseOpeningError::CreateDirectory)),
            ),
            (DatabaseOpening::CheckingDirectory, true)
            | (DatabaseOpening::CreatingDirectory, true) => (
                DatabaseOpening::Opening,
                DatabaseOpeningStep::Open,
            ),
            (DatabaseOpening::Opening, false) => (
                DatabaseOpening::Finished,
                DatabaseOpeningStep::Finish(Err(DatabaseOpeningError::Open)),
            ),
            (DatabaseOpening::Opening, true) => (
                DatabaseOpening::Finished,
                DatabaseOpeningStep::Finish(Ok(())),
            ),
            (DatabaseOpening::Finished, _) => (
                DatabaseOpening::Finished,
                DatabaseOpeningStep::Idle,
            ),
        }
    }
}

impl DatabaseOpening {
    /// How the opening begins.
    pub open spec fn start() -> DatabaseOpening {
        DatabaseOpening::CheckingDirectory
    }

    /// Begin to open the database. It is to be looked up whether its directory exists.
    pub fn open() -> (res: DatabaseOpening)
        ensures
            res == DatabaseOpening::CheckingDirectory,
            res == DatabaseOpening::start(),
    {
        DatabaseOpening::CheckingDirectory
    }

    /// Take in the answer to the last step and determine what to do next.
    ///
    /// The answer is whether the directory exists or whether what was asked for succeeded.
    pub fn step(&mut self, answer: bool) -> (res: DatabaseOpeningStep)
        ensures
            (*final(self), res) == old(self).next(answer),
    {
        match *self {
            DatabaseOpening::CheckingDirectory => if answer {
                *self = DatabaseOpening::Opening;
                DatabaseOpeningStep::Open
            } else {
                *self = DatabaseOpening::CreatingDirectory;
                DatabaseOpeningStep::CreateDirectory
            },
            DatabaseOpening::CreatingDirectory => if answer {
                *self = DatabaseOpening::Opening;
                DatabaseOpeningStep::Open
            } else {
                *self = DatabaseOpening::Finished;
                DatabaseOpeningStep::Finish(Err(DatabaseOpeningError::CreateDirectory))
            },
            DatabaseOpening::Opening => {
                *self = DatabaseOpening::Finished;
                if answer {
                    DatabaseOpeningStep::Finish(Ok(()))
                } else {
                    DatabaseOpeningStep::Finish(Err(DatabaseOpeningError::Open))
                }
            },
            DatabaseOpening::Finished => DatabaseOpeningStep::Idle,
        }
    }
}

proof fn lemma_finished_after_three(answers: Seq<bool>)
    requires
        answers.len() >= 3,
    ensures
        state_after(DatabaseOpening::CheckingDirectory, answers) == DatabaseOpening::Finished,
    decreases answers.len(),
{
    reveal_with_fuel(state_after, 4);
    if answers.len() > 3 {
        lemma_finished_after_three(answers.drop_last());
    }
}

/// The database directory is created if and only if it does not exist.
pub proof fn database_directory_is_created_if_missing(answers: Seq<bool>)
    requires
        answers.len() > 0,
    ensures
        last_output(DatabaseOpening::start(), answers)
            == DatabaseOpeningStep::CreateDirectory <==> answers == seq![false],
{
    reveal_with_fuel(state_after, 4);
    if answers.len() > 3 {
        lemma_finished_after_three(answers.drop_last());
    } else if answers.len() == 1 {
        assert(answers =~= seq![answers[0]]);
    }
}

/// The database is opened once its directory exists, whether or not it had to be created.
pub proof fn database_is_opened_once_its_directory_exists(answers: Seq<bool>)
    requires
        answers.len() > 0,
    ensures
        last_output(DatabaseOpening::start(), answers) == DatabaseOpeningStep::Open <==> {
            ||| answers == seq![true]
            ||| answers == seq![false, true]
        },
{
    reveal_with_fuel(state_after, 4);
    if answers.len() > 3 {
        lemma_finished_after_three(answers.drop_last());
    } else if answers.len() == 1 {
        assert(answers =~= seq![answers[0]]);
    } else if answers.len() == 2 {
        assert(answers =~= seq![answers[0], answers[1]]);
    }
}

/// What is asked for, given what was asked for before and the answer: first whether the directory
/// exists, then to create it if it does not, then to open the database. What fails is what is told.
pub proof fn opening_follows_its_answers(answers: Seq<bool>, answer: bool)
    ensures
        ({
            let next = last_output(DatabaseOpening::start(), answers.push(answer));
            if answers.len() == 0 {
                next == if answer {
                    DatabaseOpeningStep::Open
                } else {
                    DatabaseOpeningStep::CreateDirectory
                }
            } else {
                match last_output(DatabaseOpening::start(), answers) {
                    DatabaseOpeningStep::CreateDirectory => next == if answer {
                        DatabaseOpeningStep::Open
                    } else {
                        DatabaseOpeningStep::Finish(Err(DatabaseOpeningError::CreateDirectory))
                    },
                    DatabaseOpeningStep::Open => next == if answer {
                        DatabaseOpeningStep::Finish(Ok(()))
                    } else {
                        DatabaseOpeningStep::Finish(Err(DatabaseOpeningError::Open))
                    },
                    DatabaseOpeningStep::Finish(_) | DatabaseOpeningStep::Idle => next
                        == DatabaseOpeningStep::Idle,
                }
            }
        }),
{
    lemma_told_one_more(DatabaseOpening::start(), answers, answer);
}

/// The names of what is in the database directory, and how many messages to the database connection
/// are kept.
pub proof fn names_and_limits_of_the_database()
    ensures
        DATABASE_FILE_NAME@ == "novelnote.sqlite3"@,
        BACKUP_DIRECTORY_NAME@ == "backup"@,
        DATABASE_BUFFER == 100,
{
}

} // verus!
