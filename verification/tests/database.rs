use novelnote::database::init::{InitDb, InitStep, Sql, Statement};
use novelnote::database::thread::{
    begin_close, close, open, CloseAttempt, CloseSignal, CloseStep, LoopStep, OpenAttempt, Shutdown, ShutdownStep,
    TaskLoop, Turn,
};
use novelnote::database::{
    panic_payload_into_string, CloseError, DatabaseError, InitError, OpenError, PanicPayload,
};

fn sqlite_error() -> rusqlite::Error {
    rusqlite::Error::QueryReturnedNoRows
}

#[test]
fn database_is_initialized_statement_by_statement() {
    let (mut init, mut statement) = InitDb::new();
    let mut written = Vec::new();
    loop {
        written.push(match statement.sql() {
            Sql::PragmaUpdate { name, value } => format!("{name}={value}"),
            Sql::PragmaNumber { name, number } => format!("{name}={number}"),
            Sql::Execute(sql) => sql.to_owned(),
        });
        match init.step(Ok(())) {
            InitStep::Run(next) => statement = next,
            InitStep::Finish(result) => {
                assert!(result.is_ok());
                break;
            }
            InitStep::Idle => panic!("finished before"),
        }
    }
    assert_eq!(
        written,
        [
            "journal_mode=WAL",
            "synchronous=NORMAL",
            "foreign_keys=OFF",
            "PRAGMA foreign_key_check",
            "foreign_keys=ON",
        ]
    );
    assert!(matches!(init.step(Ok(())), InitStep::Idle));
}

#[test]
fn statements_work_on_a_real_database() {
    let connection = rusqlite::Connection::open_in_memory().expect("memory");
    let (mut init, mut statement) = InitDb::new();
    loop {
        let result = match statement.sql() {
            Sql::PragmaUpdate { name, value } => connection.pragma_update(None, name, value),
            Sql::PragmaNumber { name, number } => connection.pragma_update(None, name, number),
            Sql::Execute(sql) => connection.execute(sql, ()).map(|_| ()),
        };
        match init.step(result) {
            InitStep::Run(next) => statement = next,
            InitStep::Finish(result) => {
                assert!(result.is_ok());
                break;
            }
            InitStep::Idle => panic!("finished before"),
        }
    }
    let enforced: i64 = connection
        .pragma_query_value(None, "foreign_keys", |row| row.get(0))
        .expect("a pragma");
    assert_eq!(enforced, 1);
}

#[test]
fn failing_statement_ends_the_initialization() {
    let (mut init, _) = InitDb::new();
    assert!(matches!(init.step(Ok(())), InitStep::Run(Statement::SynchronousNormal)));
    let InitStep::Finish(Err(error)) = init.step(Err(sqlite_error())) else {
        panic!("not finished");
    };
    assert_eq!(error.message(), "error setting pragma options");
    assert_eq!(error.0.message(), "SQLite error");
    assert!(matches!(init.step(Ok(())), InitStep::Idle));
}

#[test]
fn opening_fails_in_several_ways() {
    assert!(open(OpenAttempt::Opened).is_ok());

    let error = open(OpenAttempt::OpenFailed(sqlite_error())).expect_err("failed");
    assert!(matches!(error, OpenError::Open(_)));
    assert_eq!(error.message(), "error opening the database");

    let error = InitError(DatabaseError::new(sqlite_error()));
    let error = open(OpenAttempt::InitFailed(error)).expect_err("failed");
    assert!(matches!(error, OpenError::Init(_)));
    assert_eq!(error.message(), "error initializing the database");

    let payload = PanicPayload::Borrowed("oh no");
    let error = open(OpenAttempt::Panicked(payload)).expect_err("panicked");
    assert_eq!(
        error.message(),
        "panic while opening or initializing the database with message \"oh no\""
    );
    let error = open(OpenAttempt::Panicked(PanicPayload::Other)).expect_err("panicked");
    assert_eq!(error.message(), "panic while opening or initializing the database");
}

#[test]
fn text_is_taken_out_of_a_panic() {
    let owned = PanicPayload::Owned("owned".to_owned());
    assert_eq!(panic_payload_into_string(owned).as_deref(), Some("owned"));
    let borrowed = PanicPayload::Borrowed("borrowed");
    assert_eq!(panic_payload_into_string(borrowed).as_deref(), Some("borrowed"));
    assert_eq!(panic_payload_into_string(PanicPayload::Other), None);
}

#[test]
fn tasks_are_run_until_the_queue_is_drained() {
    let mut tasks = TaskLoop::new();
    assert_eq!(tasks.step(Turn::Ran(CloseSignal::Absent)), LoopStep::Receive);
    assert_eq!(tasks.step(Turn::Ran(CloseSignal::Sent)), LoopStep::CloseQueueAndReceive);
    assert_eq!(tasks.step(Turn::Ran(CloseSignal::Absent)), LoopStep::Receive);
    assert_eq!(tasks, TaskLoop::Closed);
    assert_eq!(
        tasks.step(Turn::Ran(CloseSignal::Disconnected)),
        LoopStep::CloseQueueAndReceive
    );
    assert_eq!(tasks.step(Turn::Drained), LoopStep::Stop);
    assert_eq!(tasks.step(Turn::Ran(CloseSignal::Absent)), LoopStep::Stop);
}

#[test]
fn database_is_optimized_and_then_closed() {
    let mut shutdown = Shutdown::new();
    assert_eq!(shutdown, Shutdown::LimitAnalysis);
    let step = shutdown.step(Ok(()));
    assert!(matches!(step, ShutdownStep::Perform(Shutdown::Optimize)));
    let step = shutdown.step(Ok(()));
    assert!(matches!(step, ShutdownStep::Perform(Shutdown::Close)));
    assert!(matches!(shutdown.step(Ok(())), ShutdownStep::Finish(Ok(()))));
    assert!(matches!(shutdown.step(Ok(())), ShutdownStep::Idle));
}

#[test]
fn statements_of_the_shutdown_are_written() {
    assert!(matches!(
        Shutdown::LimitAnalysis.sql(),
        Some(Sql::PragmaNumber { name: "analysis_limit", number: 400 })
    ));
    assert!(matches!(Shutdown::Optimize.sql(), Some(Sql::Execute("PRAGMA optimize"))));
    assert!(Shutdown::Close.sql().is_none());
    assert!(Shutdown::Finished.sql().is_none());
}

#[test]
fn shared_database_is_not_told_to_close() {
    assert_eq!(begin_close(true), CloseStep::Refuse);
    assert_eq!(CloseStep::Refuse.next(), None);
    let mut tasks = TaskLoop::new();
    assert!(tasks.is_open());
    tasks.step(Turn::Ran(CloseSignal::Absent));
    assert!(tasks.is_open());
    tasks.step(Turn::Ran(CloseSignal::Sent));
    assert!(!tasks.is_open());
    tasks.step(Turn::Drained);
    assert!(!tasks.is_open());
}

#[test]
fn idle_database_is_closed() {
    let mut step = begin_close(false);
    let mut steps = vec![step];
    while let Some(next) = step.next() {
        steps.push(next);
        step = next;
    }
    assert_eq!(steps, [CloseStep::ReleaseSender, CloseStep::Signal, CloseStep::Join]);

    let mut tasks = TaskLoop::new();
    assert_eq!(tasks.step(Turn::Drained), LoopStep::Stop);
    assert!(close(CloseAttempt::Ended(Ok(()))).is_ok());
}

#[test]
fn failing_shutdown_ends_at_once() {
    let mut shutdown = Shutdown::new();
    shutdown.step(Ok(()));
    let step = shutdown.step(Err(sqlite_error()));
    assert!(matches!(step, ShutdownStep::Finish(Err(_))));
    assert!(matches!(shutdown.step(Ok(())), ShutdownStep::Idle));
}

#[test]
fn closing_fails_in_several_ways() {
    assert!(close(CloseAttempt::Ended(Ok(()))).is_ok());

    let error = close(CloseAttempt::StillShared).expect_err("shared");
    assert!(matches!(error, CloseError::OpenConnection));
    assert_eq!(error.message(), "other connection handles still exist");

    let error = close(CloseAttempt::Ended(Err(sqlite_error()))).expect_err("failed");
    assert!(matches!(error, CloseError::Database(_)));
    assert_eq!(error.message(), "database error while closing");

    let payload = PanicPayload::Owned("oh no".to_owned());
    let error = close(CloseAttempt::Panicked(payload)).expect_err("panicked");
    assert_eq!(error.message(), "the connection thread panicked with message \"oh no\"");
}
