//! Running the HTTP and admin servers until they are told to shut down.

use crate::trace::{last_output, lemma_told_one_more, state_after, Machine};
use vstd::prelude::*;

verus! {

/// A signal on which the servers are shut down.
#[derive(Debug, Clone, Copy, PartialEq, Eq, Structural)]
pub enum ShutdownSignal {
    /// The user interrupts the process.
    Interrupt,

    /// The process is asked to terminate.
    Terminate,
}

impl ShutdownSignal {
    /// What is logged when the signal is received.
    pub fn message(&self) -> (res: &'static str)
        ensures
            res@ == match *self {
                ShutdownSignal::Interrupt => "SIGINT received, shutting down..."@,
                ShutdownSignal::Terminate => "SIGTERM received, shutting down..."@,
            },
    {
        match self {
            ShutdownSignal::Interrupt => "SIGINT received, shutting down...",
            ShutdownSignal::Terminate => "SIGTERM received, shutting down...",
        }
    }
}

/// How far running the servers has come.
#[derive(Debug, Clone, Copy, PartialEq, Eq, Structural)]
pub enum RunServers {
    /// The database is opened.
    OpeningDatabase,

    /// The admin server is bound to its socket.
    BindingAdmin,

    /// The servers run.
    Serving {
        /// Whether the HTTP server has stopped.
        http_stopped: bool,

        /// Whether the admin server has stopped, or was never started.
        admin_stopped: bool,
    },

    /// The database is closed.
    ClosingDatabase,

    /// The servers have stopped and the database is closed, or something failed.
    Finished,
}

/// What to do next to run the servers.
#[derive(Debug, Clone, Copy, PartialEq, Eq)]
pub enum ServeStep {
    /// Bind the admin server to its socket.
    BindAdmin,

    /// Start the servers.
    Start {
        /// Whether to start the admin server.
        admin: bool,
    },

    /// Wait for a server to stop.
    Wait,

    /// Close the database.
    CloseDatabase,

    /// Stop, with this result.
    Finish(Result<(), ServeError>),

    /// Nothing, the run was finished before.
    Idle,
}

/// What came of a step in running the servers.
#[derive(Debug, Clone, Copy, PartialEq, Eq, Structural)]
pub enum ServeEvent {
    /// What was asked for succeeded.
    Succeeded,

    /// What was asked for failed.
    Failed,

    /// The admin server is bound to its socket, if it is enabled.
    AdminBound {
        /// Whether the admin socket is enabled.
        enabled: bool,
    },

    /// The HTTP server has stopped because it was told to shut down.
    HttpStopped,

    /// The HTTP server has stopped with an error.
    HttpFailed,

    /// The HTTP server has panicked.
    HttpPanicked,

    /// The admin server has stopped because it was told to shut down.
    AdminStopped,

    /// The admin server has panicked.
    AdminPanicked,
}

/// Error returned when running the servers fails.
#[derive(Debug, Clone, Copy, PartialEq, Eq, Structural)]
pub enum ServeError {
    /// The database cannot be opened.
    OpenDatabase,

    /// The admin server cannot be bound. Whoever tried describes the error.
    BindAdmin,

    /// The HTTP server failed.
    Http,

    /// The HTTP server panicked.
    HttpPanicked,

    /// The admin server panicked.
    AdminPanicked,

    /// The database cannot be closed.
    CloseDatabase,
}

impl ServeError {
    /// Describe the error, if there is anything to add to its source.
    pub fn message(&self) -> (res: Option<&'static str>)
        ensures
            match *self {
                ServeError::OpenDatabase => res matches Some(text) && text@
                    == "error opening database"@,
                ServeError::BindAdmin => res is None,
                ServeError::Http => res matches Some(text) && text@ == "error with HTTP server"@,
                ServeError::HttpPanicked => res matches Some(text) && text@
                    == "HTTP server panicked"@,
                ServeError::AdminPanicked => res matches Some(text) && text@
                    == "admin server panicked"@,
                ServeError::CloseDatabase => res matches Some(text) && text@
                    == "error closing database"@,
            },
    {
        match self {
            ServeError::OpenDatabase => Some("error opening database"),
            ServeError::BindAdmin => None,
            ServeError::Http => Some("error with HTTP server"),
            ServeError::HttpPanicked => Some("HTTP server panicked"),
            ServeError::AdminPanicked => Some("admin server panicked"),
            ServeError::CloseDatabase => Some("error closing database"),
        }
    }
}

/// What follows from which servers have stopped: once both have, the database is closed.
pub open spec fn after_stop(http_stopped: bool, admin_stopped: bool) -> (RunServers, ServeStep) {
    if http_stopped && admin_stopped {
        (RunServers::ClosingDatabase, ServeStep::CloseDatabase)
    } else {
        (RunServers::Serving { http_stopped, admin_stopped }, ServeStep::Wait)
    }
}

/// The run ends with `error`.
pub open spec fn fail_with(error: ServeError) -> (RunServers, ServeStep) {
    (RunServers::Finished, ServeStep::Finish(Err(error)))
}

impl Machine for RunServers {
    type Input = ServeEvent;

    type Output = ServeStep;

    open spec fn next(self, input: ServeEvent) -> (RunServers, ServeStep) {
        match (self, input) {
            (RunServers::OpeningDatabase, ServeEvent::Succeeded) => (
                RunServers::BindingAdmin,
                ServeStep::BindAdmin,
            ),
            (RunServers::OpeningDatabase, _) => fail_with(ServeError::OpenDatabase),
            (RunServers::BindingAdmin, ServeEvent::AdminBound { enabled }) => (
                RunServers::Serving { http_stopped: false, admin_stopped: !enabled },
                ServeStep::Start { admin: enabled },
            ),
            (RunServers::BindingAdmin, _) => fail_with(ServeError::BindAdmin),
            (RunServers::Serving { .. }, ServeEvent::HttpFailed) => fail_with(ServeError::Http),
            (RunServers::Serving { .. }, ServeEvent::HttpPanicked) => fail_with(
                ServeError::HttpPanicked,
            ),
            (RunServers::Serving { .. }, ServeEvent::AdminPanicked) => fail_with(
                ServeError::AdminPanicked,
            ),
            (RunServers::Serving { admin_stopped, .. }, ServeEvent::HttpStopped) => after_stop(
                true,
                admin_stopped,
            ),
            (RunServers::Serving { http_stopped, .. }, ServeEvent::AdminStopped) => after_stop(
                http_stopped,
                true,
            ),
            (RunServers::Serving { .. }, _) => (self, ServeStep::Wait),
            (RunServers::ClosingDatabase, ServeEvent::Succeeded) => (
                RunServers::Finished,
                ServeStep::Finish(Ok(())),
            ),
            (RunServers::ClosingDatabase, _) => fail_with(ServeError::CloseDatabase),
            (RunServers::Finished, _) => (RunServers::Finished, ServeStep::Idle),
        }
    }
}

impl RunServers {
    /// How the run begins.
    pub open spec fn start() -> RunServers {
        RunServers::OpeningDatabase
    }

    /// Begin to run the servers. The database is to be opened.
    pub fn run_servers() -> (res: RunServers)
        ensures
            res == RunServers::OpeningDatabase,
            res == RunServers::start(),
    {
        RunServers::OpeningDatabase
    }

    fn fail(&mut self, error: ServeError) -> (res: ServeStep)
        ensures
            (*final(self), res) == fail_with(error),
    {
        *self = RunServers::Finished;
        ServeStep::Finish(Err(error))
    }

    fn stop(&mut self, http_stopped: bool, admin_stopped: bool) -> (res: ServeStep)
        ensures
            (*final(self), res) == after_stop(http_stopped, admin_stopped),
    {
        if http_stopped && admin_stopped {
            *self = RunServers::ClosingDatabase;
            ServeStep::CloseDatabase
        } else {
            *self = RunServers::Serving { http_stopped, admin_stopped };
            ServeStep::Wait
        }
    }

    /// Take in what came of the last step and determine what to do next.
    pub fn step(&mut self, event: ServeEvent) -> (res: ServeStep)
        ensures
            (*final(self), res) == old(self).next(event),
    {
        match *self {
            RunServers::OpeningDatabase => match event {
                ServeEvent::Succeeded => {
                    *self = RunServers::BindingAdmin;
                    ServeStep::BindAdmin
                },
                _ => self.fail(ServeError::OpenDatabase),
            },
            RunServers::BindingAdmin => match event {
                ServeEvent::AdminBound { enabled } => {
                    *self = RunServers::Serving { http_stopped: false, admin_stopped: !enabled };
                    ServeStep::Start { admin: enabled }
                },
                _ => self.fail(ServeError::BindAdmin),
            },
            RunServers::Serving { http_stopped, admin_stopped } => match event {
                ServeEvent::HttpFailed => self.fail(ServeError::Http),
                ServeEvent::HttpPanicked => self.fail(ServeError::HttpPanicked),
                ServeEvent::AdminPanicked => self.fail(ServeError::AdminPanicked),
                ServeEvent::HttpStopped => self.stop(true, admin_stopped),
                ServeEvent::AdminStopped => self.stop(http_stopped, true),
                _ => ServeStep::Wait,
            },
            RunServers::ClosingDatabase => match event {
                ServeEvent::Succeeded => {
                    *self = RunServers::Finished;
                    ServeStep::Finish(Ok(()))
                },
                _ => self.fail(ServeError::CloseDatabase),
            },
            RunServers::Finished => ServeStep::Idle,
        }
    }
}

/// Whether the HTTP server has stopped by itself.
pub open spec fn http_has_stopped(events: Seq<ServeEvent>) -> bool {
    events.contains(ServeEvent::HttpStopped)
}

/// Whether the admin server has stopped by itself, or was never started.
pub open spec fn admin_has_stopped(events: Seq<ServeEvent>) -> bool {
    ||| events.contains(ServeEvent::AdminStopped)
    ||| events.contains(ServeEvent::AdminBound { enabled: false })
}

proof fn lemma_contains_last(events: Seq<ServeEvent>)
    requires
        events.len() > 0,
    ensures
        events.contains(events.last()),
        forall|event: ServeEvent| #[trigger]
            events.drop_last().contains(event) ==> events.contains(event),
{
    assert(events[events.len() - 1] == events.last());
    assert forall|event: ServeEvent| #[trigger] events.drop_last().contains(event) implies
        events.contains(event) by {
        let i = choose|i: int| 0 <= i < events.len() - 1 && events.drop_last()[i] == event;
        assert(events[i] == event);
    }
}

proof fn lemma_stopped(events: Seq<ServeEvent>)
    ensures
        match state_after(RunServers::start(), events) {
            RunServers::Serving { http_stopped, admin_stopped } => {
                &&& http_stopped ==> http_has_stopped(events)
                &&& admin_stopped ==> admin_has_stopped(events)
            },
            RunServers::ClosingDatabase => http_has_stopped(events) && admin_has_stopped(events),
            _ => true,
        },
    decreases events.len(),
{
    if events.len() > 0 {
        lemma_stopped(events.drop_last());
        lemma_contains_last(events);
    }
}

/// The database is closed only once the HTTP server has stopped, and the admin server too if it was
/// started.
pub proof fn database_is_closed_after_both_servers_stopped(events: Seq<ServeEvent>)
    requires
        events.len() > 0,
        last_output(RunServers::start(), events) == ServeStep::CloseDatabase,
    ensures
        http_has_stopped(events),
        admin_has_stopped(events),
{
    lemma_stopped(events);
}

/// The run of the servers ends without an error if and only if closing the database, the last thing
/// to be done, succeeds.
pub proof fn run_ends_well_when_the_database_is_closed(events: Seq<ServeEvent>)
    requires
        events.len() > 1,
    ensures
        last_output(RunServers::start(), events) == ServeStep::Finish(Ok(())) <==> {
            &&& last_output(RunServers::start(), events.drop_last())
                == ServeStep::CloseDatabase
            &&& events.last() == ServeEvent::Succeeded
        },
{
}

/// Once a server has failed or panicked while the servers ran, nothing more is done.
pub proof fn failure_of_a_server_ends_the_run(
    before: Seq<ServeEvent>,
    failure: ServeEvent,
    later: Seq<ServeEvent>,
)
    requires
        state_after(RunServers::start(), before) is Serving,
        failure == ServeEvent::HttpFailed || failure == ServeEvent::HttpPanicked || failure
            == ServeEvent::AdminPanicked,
        later.len() > 0,
    ensures
        last_output(RunServers::start(), before.push(failure)) matches ServeStep::Finish(
            Err(_),
        ),
        last_output(RunServers::start(), before.push(failure) + later) == ServeStep::Idle,
{
    assert(before.push(failure).drop_last() =~= before);
    lemma_stays_finished(before.push(failure), later.drop_last());
    assert((before.push(failure) + later).drop_last() =~= before.push(failure)
        + later.drop_last());
}

proof fn lemma_stays_finished(before: Seq<ServeEvent>, later: Seq<ServeEvent>)
    requires
        state_after(RunServers::start(), before) == RunServers::Finished,
    ensures
        state_after(RunServers::start(), before + later) == RunServers::Finished,
    decreases later.len(),
{
    if later.len() == 0 {
        assert(before + later =~= before);
    } else {
        lemma_stays_finished(before, later.drop_last());
        assert((before + later).drop_last() =~= before + later.drop_last());
    }
}

/// While the servers run it is known which of them have stopped.
proof fn lemma_serving(events: Seq<ServeEvent>)
    ensures
        events.len() == 1 && events[0] == ServeEvent::Succeeded <==> state_after(
            RunServers::start(),
            events,
        ) == RunServers::BindingAdmin,
        state_after(RunServers::start(), events) matches RunServers::Serving {
            http_stopped,
            admin_stopped,
        } ==> {
            &&& events.len() >= 2
            &&& http_stopped == events.contains(ServeEvent::HttpStopped)
            &&& admin_stopped == (events.contains(ServeEvent::AdminStopped) || events[1] == (
            ServeEvent::AdminBound { enabled: false }))
            &&& !(http_stopped && admin_stopped)
        },
        events.len() == 0 <==> state_after(RunServers::start(), events)
            == RunServers::OpeningDatabase,
    decreases events.len(),
{
    if events.len() > 0 {
        let before = events.drop_last();
        lemma_serving(before);
        lemma_contains_last(events);
        assert forall|event: ServeEvent| #[trigger] events.contains(event) implies before.contains(
            event,
        ) || event == events.last() by {
            let i = choose|i: int| 0 <= i < events.len() && events[i] == event;
            if i < before.len() {
                assert(before[i] == event);
            }
        }
        if before.len() == 1 && before[0] == ServeEvent::Succeeded {
            assert forall|event: ServeEvent| #[trigger] before.contains(event) implies event
                == ServeEvent::Succeeded by {}
        }
    }
}

/// What is asked for to run the servers, given what was asked for before and what came of it. The
/// database is opened first, then the admin server is bound, then the servers are started, the admin
/// server only if it is enabled. Once both have stopped, the database is closed. A failure ends the
/// run with an error that tells what failed.
pub proof fn run_follows_its_events(events: Seq<ServeEvent>, event: ServeEvent)
    ensures
        ({
            let next = last_output(RunServers::start(), events.push(event));
            let http_stopped = events.push(event).contains(ServeEvent::HttpStopped);
            let admin_stopped = events.push(event).contains(ServeEvent::AdminStopped) || events[1]
                == (ServeEvent::AdminBound { enabled: false });
            if events.len() == 0 {
                next == if event == ServeEvent::Succeeded {
                    ServeStep::BindAdmin
                } else {
                    ServeStep::Finish(Err(ServeError::OpenDatabase))
                }
            } else {
                match last_output(RunServers::start(), events) {
                    ServeStep::BindAdmin => match event {
                        ServeEvent::AdminBound { enabled } => next == ServeStep::Start {
                            admin: enabled,
                        },
                        _ => next == ServeStep::Finish(Err(ServeError::BindAdmin)),
                    },
                    ServeStep::Start { .. } | ServeStep::Wait => match event {
                        ServeEvent::HttpFailed => next == ServeStep::Finish(Err(ServeError::Http)),
                        ServeEvent::HttpPanicked => next == ServeStep::Finish(
                            Err(ServeError::HttpPanicked),
                        ),
                        ServeEvent::AdminPanicked => next == ServeStep::Finish(
                            Err(ServeError::AdminPanicked),
                        ),
                        _ => next == if http_stopped && admin_stopped {
                            ServeStep::CloseDatabase
                        } else {
                            ServeStep::Wait
                        },
                    },
                    ServeStep::CloseDatabase => next == if event == ServeEvent::Succeeded {
                        ServeStep::Finish(Ok(()))
                    } else {
                        ServeStep::Finish(Err(ServeError::CloseDatabase))
                    },
                    ServeStep::Finish(_) | ServeStep::Idle => next == ServeStep::Idle,
                }
            }
        }),
{
    lemma_told_one_more(RunServers::start(), events, event);
    lemma_serving(events);
    let all = events.push(event);
    assert(all[events.len() as int] == event);
    assert forall|other: ServeEvent| #[trigger] all.contains(other) <==> events.contains(other)
        || other == event by {
        if events.contains(other) {
            let i = choose|i: int| 0 <= i < events.len() && events[i] == other;
            assert(all[i] == other);
        }
        if all.contains(other) && other != event {
            let i = choose|i: int| 0 <= i < all.len() && all[i] == other;
            assert(events[i] == other);
        }
    }
}

} // verus!
