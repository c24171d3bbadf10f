//! Initializing a database that was just opened.

use crate::database::{DatabaseError, InitError};
use crate::trace::{last_output, lemma_told_one_more, state_after, Machine};
use vstd::prelude::*;

verus! {

/// A statement that is run to initialize the database.
#[derive(Debug, Clone, Copy, PartialEq, Eq, Structural)]
pub enum Statement {
    /// Write changes to a write-ahead log.
    WriteAheadLog,

    /// Synchronize with the disk at the most critical moments.
    SynchronousNormal,

    /// Do not enforce foreign keys.
    ForeignKeysOff,

    /// Look for violated foreign keys.
    ForeignKeyCheck,

    /// Enforce foreign keys.
    ForeignKeysOn,
}

/// How a statement is written.
#[derive(Debug)]
pub enum Sql {
    /// Set a pragma.
    PragmaUpdate {
        /// Name of the pragma.
        name: &'static str,

        /// Value to set it to.
        value: &'static str,
    },

    /// Set a pragma to a number.
    PragmaNumber {
        /// Name of the pragma.
        name: &'static str,

        /// Number to set it to.
        number: i32,
    },

    /// Execute a statement.
    Execute(&'static str),
}

impl Statement {
    /// Write the statement.
    pub fn sql(self) -> (res: Sql)
        ensures
            match self {
                Statement::WriteAheadLog => res matches Sql::PragmaUpdate { name, value } && name@
                    == "journal_mode"@ && value@ == "WAL"@,
                Statement::SynchronousNormal => res matches Sql::PragmaUpdate { name, value }
                    && name@ == "synchronous"@ && value@ == "NORMAL"@,
                Statement::ForeignKeysOff => res matches Sql::PragmaUpdate { name, value } && name@
                    == "foreign_keys"@ && value@ == "OFF"@,
                Statement::ForeignKeyCheck => res matches Sql::Execute(sql) && sql@
                    == "PRAGMA foreign_key_check"@,
                Statement::ForeignKeysOn => res matches Sql::PragmaUpdate { name, value } && name@
                    == "foreign_keys"@ && value@ == "ON"@,
            },
    {
        match self {
            Statement::WriteAheadLog => Sql::PragmaUpdate { name: "journal_mode", value: "WAL" },
            Statement::SynchronousNormal => Sql::PragmaUpdate {
                name: "synchronous",
                value: "NORMAL",
            },
            Statement::ForeignKeysOff => Sql::PragmaUpdate { name: "foreign_keys", value: "OFF" },
            Statement::ForeignKeyCheck => Sql::Execute("PRAGMA foreign_key_check"),
            Statement::ForeignKeysOn => Sql::PragmaUpdate { name: "foreign_keys", value: "ON" },
        }
    }

    /// The statement that is run after this one.
    pub open spec fn following(self) -> Option<Statement> {
        match self {
            Statement::WriteAheadLog => Some(Statement::SynchronousNormal),
            Statement::SynchronousNormal => Some(Statement::ForeignKeysOff),
            Statement::ForeignKeysOff => Some(Statement::ForeignKeyCheck),
            Statement::ForeignKeyCheck => Some(Statement::ForeignKeysOn),
            Statement::ForeignKeysOn => None,
        }
    }
}

/// The initialization of a database, statement by statement.
#[derive(Debug, Clone, Copy, PartialEq, Eq, Structural)]
pub enum InitDb {
    /// The statement is being run.
    Running(Statement),

    /// Every statement was run, or one of them failed.
    Finished,
}

/// What to do next to initialize the database.
#[derive(Debug)]
pub enum InitStep {
    /// Run the statement.
    Run(Statement),

    /// Stop, with this result.
    Finish(Result<(), InitError>),

    /// Nothing, the initialization was finished before.
    Idle,
}

impl Machine for InitDb {
    type Input = Result<(), rusqlite::Error>;

    type Output = InitStep;

    open spec fn next(self, input: Result<(), rusqlite::Error>) -> (InitDb, InitStep) {
        match self {
            InitDb::Running(statement) => match input {
                Ok(()) => match statement.following() {
                    Some(next) => (InitDb::Running(next), InitStep::Run(next)),
                    None => (InitDb::Finished, InitStep::Finish(Ok(()))),
                },
                Err(source) => (
                    InitDb::Finished,
                    InitStep::Finish(Err(InitError(DatabaseError { source }))),
                ),
            },
            InitDb::Finished => (InitDb::Finished, InitStep::Idle),
        }
    }
}

impl InitDb {
    /// The beginning of the initialization.
    pub open spec fn start() -> InitDb {
        InitDb::Running(Statement::WriteAheadLog)
    }

    /// Begin to initialize a database. The first statement is to be run.
    pub fn new() -> (res: (InitDb, Statement))
        ensures
            res.0 == InitDb::start(),
            res.0 == InitDb::Running(res.1),
    {
        (InitDb::Running(Statement::WriteAheadLog), Statement::WriteAheadLog)
    }

    /// Take in the result of the last statement and determine what to do next.
    pub fn step(&mut self, result: Result<(), rusqlite::Error>) -> (res: InitStep)
        ensures
            (*final(self), res) == old(self).next(result),
    {
        let statement = match self {
            InitDb::Running(statement) => *statement,
            InitDb::Finished => return InitStep::Idle,
        };
        if let Err(source) = result {
            *self = InitDb::Finished;
            return InitStep::Finish(Err(InitError(DatabaseError::new(source))));
        }
        let next = match statement {
            Statement::WriteAheadLog => Statement::SynchronousNormal,
            Statement::SynchronousNormal => Statement::ForeignKeysOff,
            Statement::ForeignKeysOff => Statement::ForeignKeyCheck,
            Statement::ForeignKeyCheck => Statement::ForeignKeysOn,
            Statement::ForeignKeysOn => {
                *self = InitDb::Finished;
                return InitStep::Finish(Ok(()));
            },
        };
        *self = InitDb::Running(next);
        InitStep::Run(next)
    }
}

/// The statement that is run after `n` others.
pub open spec fn nth_statement(n: int) -> Statement {
    if n == 0 {
        Statement::WriteAheadLog
    } else if n == 1 {
        Statement::SynchronousNormal
    } else if n == 2 {
        Statement::ForeignKeysOff
    } else if n == 3 {
        Statement::ForeignKeyCheck
    } else {
        Statement::ForeignKeysOn
    }
}

/// Whether every result is a success.
pub open spec fn all_succeeded(results: Seq<Result<(), rusqlite::Error>>) -> bool {
    forall|i: int| 0 <= i < results.len() ==> #[trigger] results[i] is Ok
}

/// As long as the statements succeed they are run in order, and an initialization that is still
/// going on has not seen a failure.
pub proof fn statements_are_run_in_order(results: Seq<Result<(), rusqlite::Error>>)
    ensures
        (state_after(InitDb::start(), results) is Running) <==> results.len() < 5 && all_succeeded(
            results,
        ),
        results.len() < 5 && all_succeeded(results) ==> state_after(InitDb::start(), results)
            == InitDb::Running(nth_statement(results.len() as int)),
    decreases results.len(),
{
    if results.len() > 0 {
        let before = results.drop_last();
        statements_are_run_in_order(before);
        if all_succeeded(before) && results.last() is Ok {
            assert forall|i: int| 0 <= i < results.len() implies #[trigger] results[i] is Ok by {
                if i < before.len() {
                    assert(before[i] is Ok);
                }
            }
        }
        if all_succeeded(results) {
            assert forall|i: int| 0 <= i < before.len() implies #[trigger] before[i] is Ok by {
                assert(results[i] is Ok);
            }
            assert(results[results.len() - 1] is Ok);
        }
    }
}

/// A database counts as initialized exactly when all five statements succeeded. The last of them
/// makes it enforce foreign keys.
pub proof fn initialized_when_all_statements_succeeded(results: Seq<Result<(), rusqlite::Error>>)
    requires
        results.len() > 0,
    ensures
        (last_output(InitDb::start(), results) matches InitStep::Finish(Ok(()))) <==> results.len()
            == 5 && all_succeeded(results),
{
    let before = results.drop_last();
    statements_are_run_in_order(before);
    if all_succeeded(results) {
        assert forall|i: int| 0 <= i < before.len() implies #[trigger] before[i] is Ok by {
            assert(results[i] is Ok);
        }
        assert(results[results.len() - 1] is Ok);
    }
    if all_succeeded(before) && results.last() is Ok {
        assert forall|i: int| 0 <= i < results.len() implies #[trigger] results[i] is Ok by {
            if i < before.len() {
                assert(before[i] is Ok);
            }
        }
    }
}

/// The first statement to fail ends the initialization with its error.
pub proof fn first_failure_ends_initialization(
    results: Seq<Result<(), rusqlite::Error>>,
    source: rusqlite::Error,
)
    requires
        results.len() < 5,
        all_succeeded(results),
    ensures
        last_output(InitDb::start(), results.push(Err(source))) == InitStep::Finish(
            Err(InitError(DatabaseError { source })),
        ),
        state_after(InitDb::start(), results.push(Err(source))) == InitDb::Finished,
{
    assert(results.push(Err(source)).drop_last() =~= results);
    statements_are_run_in_order(results);
}

/// What is run to initialize a database, given what was run before and what came of it: it is made to
/// write ahead and to synchronize at the most critical moments, its foreign keys are looked at while
/// they are not enforced, and in the end they are. The first failure is the error.
pub proof fn initialization_follows_its_results(
    results: Seq<Result<(), rusqlite::Error>>,
    result: Result<(), rusqlite::Error>,
)
    ensures
        InitDb::start() == InitDb::Running(Statement::WriteAheadLog),
        ({
            let next = last_output(InitDb::start(), results.push(result));
            match result {
                Err(source) => if results.len() == 0 || last_output(InitDb::start(), results)
                    is Run {
                    next == InitStep::Finish(Err(InitError(DatabaseError { source })))
                } else {
                    next is Idle
                },
                Ok(_) => if results.len() == 0 {
                    next == InitStep::Run(Statement::SynchronousNormal)
                } else {
                    match last_output(InitDb::start(), results) {
                        InitStep::Run(Statement::SynchronousNormal) => next == InitStep::Run(
                            Statement::ForeignKeysOff,
                        ),
                        InitStep::Run(Statement::ForeignKeysOff) => next == InitStep::Run(
                            Statement::ForeignKeyCheck,
                        ),
                        InitStep::Run(Statement::ForeignKeyCheck) => next == InitStep::Run(
                            Statement::ForeignKeysOn,
                        ),
                        InitStep::Run(Statement::ForeignKeysOn) => next matches InitStep::Finish(
                            Ok(_),
                        ),
                        InitStep::Run(Statement::WriteAheadLog) => false,
                        InitStep::Finish(_) | InitStep::Idle => next is Idle,
                    }
                },
            }
        }),
{
    lemma_told_one_more(InitDb::start(), results, result);
}

} // verus!
