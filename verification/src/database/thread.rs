//! The thread that owns the database connection.

use crate::database::init::Sql;
use crate::database::{CloseError, DatabaseError, InitError, OpenError, PanicPayload};
use crate::database::{optional_text, payload_text};
use crate::trace::{last_output, lemma_told_one_more, state_after, Machine};
use vstd::prelude::*;

verus! {

/// What came of opening a database on another thread.
#[derive(Debug)]
pub enum OpenAttempt {
    /// The database was opened and initialized.
    Opened,

    /// The database could not be opened.
    OpenFailed(rusqlite::Error),

    /// The database was opened but could not be initialized.
    InitFailed(InitError),

    /// The thread panicked.
    Panicked(PanicPayload),
}

/// Determine whether a database was opened.
///
/// # Errors
///
/// Returns an error if there was a problem opening the database or initializing it.
pub fn open(attempt: OpenAttempt) -> (res: Result<(), OpenError>)
    ensures
        match attempt {
            OpenAttempt::Opened => res is Ok,
            OpenAttempt::OpenFailed(source) => res == Err::<(), OpenError>(
                OpenError::Open(DatabaseError { source }),
            ),
            OpenAttempt::InitFailed(error) => res == Err::<(), OpenError>(OpenError::Init(error)),
            OpenAttempt::Panicked(payload) => res matches Err(OpenError::Panic { message })
                && optional_text(message) == payload_text(payload),
        },
{
    match attempt {
        OpenAttempt::Opened => Ok(()),
        OpenAttempt::OpenFailed(source) => Err(OpenError::Open(DatabaseError::new(source))),
        OpenAttempt::InitFailed(error) => Err(OpenError::Init(error)),
        OpenAttempt::Panicked(payload) => Err(OpenError::from_panic(payload)),
    }
}

/// What a look at the channel for the close signal shows.
#[derive(Debug, Clone, Copy, PartialEq, Eq, Structural)]
pub enum CloseSignal {
    /// The signal was sent.
    Sent,

    /// The other end of the channel is gone.
    Disconnected,

    /// Neither.
    Absent,
}

/// What happened since the connection thread last waited for a task.
#[derive(Debug, Clone, Copy, PartialEq, Eq, Structural)]
pub enum Turn {
    /// A task was received and run, and then the close signal was looked for.
    Ran(CloseSignal),

    /// No task is left, and none can come any more.
    Drained,
}

/// What the connection thread does next.
#[derive(Debug, Clone, Copy, PartialEq, Eq, Structural)]
pub enum LoopStep {
    /// Wait for the next task.
    Receive,

    /// Let no new tasks into the queue, then wait for the next one that is in it.
    CloseQueueAndReceive,

    /// Run no more tasks.
    Stop,
}

/// The part of the connection thread's life in which it runs tasks.
#[derive(Debug, Clone, Copy, PartialEq, Eq, Structural)]
pub enum TaskLoop {
    /// New tasks may come.
    Open,

    /// The queue is closed: only tasks that are in it already may come.
    Closed,

    /// No task may come.
    Stopped,
}

impl Machine for TaskLoop {
    type Input = Turn;

    type Output = LoopStep;

    open spec fn next(self, input: Turn) -> (TaskLoop, LoopStep) {
        if self == TaskLoop::Stopped || input == Turn::Drained {
            (TaskLoop::Stopped, LoopStep::Stop)
        } else if input == Turn::Ran(CloseSignal::Absent) {
            (self, LoopStep::Receive)
        } else {
            (TaskLoop::Closed, LoopStep::CloseQueueAndReceive)
        }
    }
}

impl TaskLoop {
    /// How the loop begins.
    pub open spec fn start() -> TaskLoop {
        TaskLoop::Open
    }

    /// The loop of a connection that was just opened.
    pub fn new() -> (res: TaskLoop)
        ensures
            res == TaskLoop::Open,
            res == TaskLoop::start(),
    {
        TaskLoop::Open
    }

    /// Whether new tasks may come, that is, whether the database is open to those who have a handle.
    pub fn is_open(&self) -> (res: bool)
        ensures
            res == (*self == TaskLoop::Open),
    {
        match self {
            TaskLoop::Open => true,
            TaskLoop::Closed | TaskLoop::Stopped => false,
        }
    }

    /// Take in what happened and determine what to do next.
    pub fn step(&mut self, turn: Turn) -> (res: LoopStep)
        ensures
            (*final(self), res) == old(self).next(turn),
    {
        match (*self, turn) {
            (TaskLoop::Stopped, _) | (_, Turn::Drained) => {
                *self = TaskLoop::Stopped;
                LoopStep::Stop
            },
            (_, Turn::Ran(CloseSignal::Absent)) => LoopStep::Receive,
            (_, Turn::Ran(_)) => {
                *self = TaskLoop::Closed;
                LoopStep::CloseQueueAndReceive
            },
        }
    }
}

/// Every task that is in the queue is run: the thread stops exactly when it is told that the queue
/// is drained, whether or not the close signal came before.
pub proof fn tasks_are_run_until_none_remain(turns: Seq<Turn>)
    ensures
        (state_after(TaskLoop::start(), turns) == TaskLoop::Stopped) <==> turns.contains(
            Turn::Drained,
        ),
    decreases turns.len(),
{
    if turns.len() > 0 {
        let before = turns.drop_last();
        tasks_are_run_until_none_remain(before);
        if before.contains(Turn::Drained) {
            let i = choose|i: int| 0 <= i < before.len() && before[i] == Turn::Drained;
            assert(turns[i] == Turn::Drained);
        }
        if turns.last() == Turn::Drained {
            assert(turns[turns.len() - 1] == Turn::Drained);
        }
        if turns.contains(Turn::Drained) && turns.last() != Turn::Drained {
            let i = choose|i: int| 0 <= i < turns.len() && turns[i] == Turn::Drained;
            assert(before[i] == Turn::Drained);
        }
    }
}

/// The queue is closed after the first task at whose end the close signal was there, and stays so.
pub proof fn close_signal_closes_the_queue(turns: Seq<Turn>)
    ensures
        (state_after(TaskLoop::start(), turns) == TaskLoop::Open) <==> forall|i: int|
            0 <= i < turns.len() ==> #[trigger] turns[i] == Turn::Ran(CloseSignal::Absent),
    decreases turns.len(),
{
    if turns.len() > 0 {
        let before = turns.drop_last();
        close_signal_closes_the_queue(before);
        if forall|i: int|
            0 <= i < before.len() ==> #[trigger] before[i] == Turn::Ran(CloseSignal::Absent) {
            if turns.last() == Turn::Ran(CloseSignal::Absent) {
                assert forall|i: int| 0 <= i < turns.len() implies #[trigger] turns[i] == Turn::Ran(
                    CloseSignal::Absent,
                ) by {
                    if i < before.len() {
                        assert(before[i] == Turn::Ran(CloseSignal::Absent));
                    }
                }
            } else {
                assert(turns[turns.len() - 1] != Turn::Ran(CloseSignal::Absent));
            }
        } else {
            let i = choose|i: int|
                0 <= i < before.len() && #[trigger] before[i] != Turn::Ran(CloseSignal::Absent);
            assert(turns[i] != Turn::Ran(CloseSignal::Absent));
        }
    }
}

/// The number of rows that the analysis of an index looks at when the database is optimized.
pub const ANALYSIS_LIMIT: i32 = 400;

/// What the connection thread does after it has run the last task.
#[derive(Debug, Clone, Copy, PartialEq, Eq, Structural)]
pub enum Shutdown {
    /// Set the `analysis_limit` pragma to [`ANALYSIS_LIMIT`].
    LimitAnalysis,

    /// Execute `PRAGMA optimize`.
    Optimize,

    /// Close the connection.
    Close,

    /// Nothing more.
    Finished,
}

/// What to do next to shut the connection down.
#[derive(Debug)]
pub enum ShutdownStep {
    /// Perform what the new state says.
    Perform(Shutdown),

    /// End the thread with this result.
    Finish(Result<(), rusqlite::Error>),

    /// Nothing, the shutdown was finished before.
    Idle,
}

impl Machine for Shutdown {
    type Input = Result<(), rusqlite::Error>;

    type Output = ShutdownStep;

    open spec fn next(self, input: Result<(), rusqlite::Error>) -> (Shutdown, ShutdownStep) {
        match (self, input) {
            (Shutdown::Finished, _) => (Shutdown::Finished, ShutdownStep::Idle),
            (_, Err(error)) => (Shutdown::Finished, ShutdownStep::Finish(Err(error))),
            (Shutdown::LimitAnalysis, Ok(())) => (
                Shutdown::Optimize,
                ShutdownStep::Perform(Shutdown::Optimize),
            ),
            (Shutdown::Optimize, Ok(())) => (Shutdown::Close, ShutdownStep::Perform(Shutdown::Close)),
            (Shutdown::Close, Ok(())) => (Shutdown::Finished, ShutdownStep::Finish(Ok(()))),
        }
    }
}

impl Shutdown {
    /// How the shutdown begins.
    pub open spec fn start() -> Shutdown {
        Shutdown::LimitAnalysis
    }

    /// Write the statement to run, if it is one.
    pub fn sql(self) -> (res: Option<Sql>)
        ensures
            match self {
                Shutdown::LimitAnalysis => res matches Some(Sql::PragmaNumber { name, number })
                    && name@ == "analysis_limit"@ && number == 400,
                Shutdown::Optimize => res matches Some(Sql::Execute(sql)) && sql@
                    == "PRAGMA optimize"@,
                Shutdown::Close | Shutdown::Finished => res is None,
            },
    {
        match self {
            Shutdown::LimitAnalysis => Some(
                Sql::PragmaNumber { name: "analysis_limit", number: ANALYSIS_LIMIT },
            ),
            Shutdown::Optimize => Some(Sql::Execute("PRAGMA optimize")),
            Shutdown::Close | Shutdown::Finished => None,
        }
    }

    /// Begin to shut the connection down.
    pub fn new() -> (res: Shutdown)
        ensures
            res == Shutdown::LimitAnalysis,
            res == Shutdown::start(),
    {
        Shutdown::LimitAnalysis
    }

    /// Take in the result of what was last performed and determine what to do next.
    pub fn step(&mut self, result: Result<(), rusqlite::Error>) -> (res: ShutdownStep)
        ensures
            (*final(self), res) == old(self).next(result),
    {
        let next = match *self {
            Shutdown::LimitAnalysis => Shutdown::Optimize,
            Shutdown::Optimize => Shutdown::Close,
            Shutdown::Close => Shutdown::Finished,
            Shutdown::Finished => return ShutdownStep::Idle,
        };
        match result {
            Err(error) => {
                *self = Shutdown::Finished;
                ShutdownStep::Finish(Err(error))
            },
            Ok(()) => {
                *self = next;
                match next {
                    Shutdown::Finished => ShutdownStep::Finish(Ok(())),
                    next => ShutdownStep::Perform(next),
                }
            },
        }
    }
}

/// The connection is closed once the database was optimized and not before, and the thread ends well
/// if and only if all of it succeeded.
pub proof fn database_is_optimized_before_it_is_closed(results: Seq<Result<(), rusqlite::Error>>)
    ensures
        state_after(Shutdown::start(), results) == Shutdown::Close <==> results.len() == 2
            && results[0] is Ok && results[1] is Ok,
        results.len() > 0 ==> ((last_output(
            Shutdown::start(),
            results,
        ) matches ShutdownStep::Finish(Ok(()))) <==> results.len() == 3 && results[0] is Ok
            && results[1] is Ok && results[2] is Ok),
    decreases results.len(),
{
    reveal_with_fuel(state_after, 4);
    if results.len() > 3 {
        let before = results.drop_last();
        database_is_optimized_before_it_is_closed(before);
        lemma_shutdown_is_over(before);
    }
}

proof fn lemma_shutdown_is_over(results: Seq<Result<(), rusqlite::Error>>)
    requires
        results.len() >= 3,
    ensures
        state_after(Shutdown::start(), results) == Shutdown::Finished,
    decreases results.len(),
{
    if results.len() > 3 {
        lemma_shutdown_is_over(results.drop_last());
    } else {
        reveal_with_fuel(state_after, 4);
    }
}

/// A step in closing a database by one who has a handle.
#[derive(Debug, Clone, Copy, PartialEq, Eq, Structural)]
pub enum CloseStep {
    /// Do nothing, others still use the database.
    Refuse,

    /// Let go of the handle's own end of the queue, so that the connection thread does not wait for
    /// tasks that cannot come.
    ReleaseSender,

    /// Send the close signal to the connection thread.
    Signal,

    /// Wait for the end of the connection thread.
    Join,
}

/// How a database is closed, given whether another handle to it still exists.
pub open spec fn close_step(still_shared: bool) -> CloseStep {
    if still_shared {
        CloseStep::Refuse
    } else {
        CloseStep::ReleaseSender
    }
}

/// Determine how to close a database, given whether another handle to it still exists.
pub fn begin_close(still_shared: bool) -> (res: CloseStep)
    ensures
        res == close_step(still_shared),
{
    if still_shared {
        CloseStep::Refuse
    } else {
        CloseStep::ReleaseSender
    }
}

impl CloseStep {
    /// The step that follows this one, if there is one.
    pub open spec fn spec_next(self) -> Option<CloseStep> {
        match self {
            CloseStep::ReleaseSender => Some(CloseStep::Signal),
            CloseStep::Signal => Some(CloseStep::Join),
            CloseStep::Refuse | CloseStep::Join => None,
        }
    }

    /// The step that follows this one, if there is one.
    #[verifier::when_used_as_spec(spec_next)]
    pub fn next(self) -> (res: Option<CloseStep>)
        ensures
            res == self.spec_next(),
    {
        match self {
            CloseStep::ReleaseSender => Some(CloseStep::Signal),
            CloseStep::Signal => Some(CloseStep::Join),
            CloseStep::Refuse | CloseStep::Join => None,
        }
    }
}

/// The steps from `step` on.
pub open spec fn steps_from(step: CloseStep) -> Seq<CloseStep>
    decreases
            (match step {
                CloseStep::ReleaseSender => 2int,
                CloseStep::Signal => 1,
                CloseStep::Join | CloseStep::Refuse => 0,
            }),
{
    match step.next() {
        Some(next) => seq![step] + steps_from(next),
        None => seq![step],
    }
}

/// How many ends of the queue are left to send tasks by, out of `senders`, once `steps` were taken.
pub open spec fn senders_left(senders: nat, steps: Seq<CloseStep>) -> int {
    if steps.contains(CloseStep::ReleaseSender) {
        senders - 1
    } else {
        senders as int
    }
}

/// What the connection thread finds when it looks for the close signal once `steps` were taken.
pub open spec fn signal_after(steps: Seq<CloseStep>) -> CloseSignal {
    if steps.contains(CloseStep::Signal) {
        CloseSignal::Sent
    } else {
        CloseSignal::Absent
    }
}

/// The turns of the connection thread until it waits, with `tasks` in the queue, `senders` to send
/// more by, and `signal` to be found. It waits if there is no task and one may be sent. If none may
/// be sent, it is told that the queue is drained.
pub open spec fn turns_until_wait(tasks: nat, senders: int, signal: CloseSignal) -> Seq<Turn> {
    let ran = Seq::new(tasks, |i: int| Turn::Ran(signal));
    if senders > 0 {
        ran
    } else {
        ran.push(Turn::Drained)
    }
}

/// Closing a database to which another handle exists leaves it open: the connection thread finds no
/// close signal, however many tasks it runs then, and goes on letting new ones in.
pub proof fn shared_database_stays_open(tasks: nat, senders: nat)
    requires
        senders > 1,
    ensures
        ({
            let steps = steps_from(close_step(true));
            state_after(
                TaskLoop::start(),
                turns_until_wait(tasks, senders_left(senders, steps), signal_after(steps)),
            ) == TaskLoop::Open
        }),
{
    let steps = steps_from(close_step(true));
    let turns = turns_until_wait(tasks, senders_left(senders, steps), signal_after(steps));
    assert forall|i: int| 0 <= i < turns.len() implies #[trigger] turns[i] == Turn::Ran(
        CloseSignal::Absent,
    ) by {}
    close_signal_closes_the_queue(turns);
}

/// Closing a database to which no other handle exists comes to an end, even if it is idle: however
/// many tasks are in the queue, the connection thread runs them and stops. It is then waited for, and
/// the database is closed well if and only if the shutdown succeeds.
pub proof fn unshared_database_is_closed(
    before: TaskLoop,
    tasks: nat,
    results: Seq<Result<(), rusqlite::Error>>,
    ended: Result<(), rusqlite::Error>,
)
    requires
        results.len() > 0,
        last_output(Shutdown::start(), results) == ShutdownStep::Finish(ended),
    ensures
        ({
            let steps = steps_from(close_step(false));
            &&& steps.last() == CloseStep::Join
            &&& last_output(
                before,
                turns_until_wait(
                    tasks,
                    senders_left(1, steps.drop_last()),
                    signal_after(steps.drop_last()),
                ),
            ) == LoopStep::Stop
        }),
        CloseAttempt::Ended(ended).succeeded() <==> results.len() == 3 && results[0] is Ok
            && results[1] is Ok && results[2] is Ok,
{
    reveal_with_fuel(steps_from, 3);
    let steps = steps_from(close_step(false)).drop_last();
    assert(steps[0] == CloseStep::ReleaseSender);
    assert(senders_left(1, steps) == 0);
    let turns = turns_until_wait(tasks, 0, signal_after(steps));
    assert(turns.last() == Turn::Drained);
    database_is_optimized_before_it_is_closed(results);
}

/// What came of closing a database.
#[derive(Debug)]
pub enum CloseAttempt {
    /// Another handle to the database still exists, so nothing was done.
    StillShared,

    /// The connection thread was told to close, and ended.
    Ended(Result<(), rusqlite::Error>),

    /// The connection thread was told to close, and panicked.
    Panicked(PanicPayload),
}

impl CloseAttempt {
    /// Whether the database was closed well.
    pub open spec fn succeeded(self) -> bool {
        self matches CloseAttempt::Ended(Ok(()))
    }
}

/// Determine whether a database was closed.
///
/// # Errors
///
/// Returns an error if another database connection handle still exists, there was a database
/// error, or the connection thread panicked.
pub fn close(attempt: CloseAttempt) -> (res: Result<(), CloseError>)
    ensures
        res is Ok <==> attempt.succeeded(),
        match attempt {
            CloseAttempt::StillShared => res == Err::<(), CloseError>(CloseError::OpenConnection),
            CloseAttempt::Ended(Ok(())) => res is Ok,
            CloseAttempt::Ended(Err(source)) => res == Err::<(), CloseError>(
                CloseError::Database(DatabaseError { source }),
            ),
            CloseAttempt::Panicked(payload) => res matches Err(CloseError::Panic { message })
                && optional_text(message) == payload_text(payload),
        },
{
    match attempt {
        CloseAttempt::StillShared => Err(CloseError::OpenConnection),
        CloseAttempt::Ended(Ok(())) => Ok(()),
        CloseAttempt::Ended(Err(source)) => Err(CloseError::Database(DatabaseError::new(source))),
        CloseAttempt::Panicked(payload) => Err(CloseError::from_panic(payload)),
    }
}

/// What the connection thread does after each turn: it stops once it is told that the queue is
/// drained, and before that waits for tasks, closing the queue first whenever the close signal was
/// sent or can no longer be sent.
pub proof fn tasks_follow_their_turns(turns: Seq<Turn>, turn: Turn)
    ensures
        last_output(TaskLoop::start(), turns.push(turn)) == if turns.contains(Turn::Drained) || turn
            == Turn::Drained {
            LoopStep::Stop
        } else if turn == Turn::Ran(CloseSignal::Absent) {
            LoopStep::Receive
        } else {
            LoopStep::CloseQueueAndReceive
        },
{
    lemma_told_one_more(TaskLoop::start(), turns, turn);
    tasks_are_run_until_none_remain(turns);
}

/// What is done to shut a connection down, given what was done before and what came of it: the
/// analysis is limited, the database is optimized, the connection is closed. The first failure is
/// what the thread ends with.
pub proof fn shutdown_follows_its_results(
    results: Seq<Result<(), rusqlite::Error>>,
    result: Result<(), rusqlite::Error>,
)
    ensures
        Shutdown::start() == Shutdown::LimitAnalysis,
        ({
            let next = last_output(Shutdown::start(), results.push(result));
            match result {
                Err(error) => if results.len() == 0 || last_output(Shutdown::start(), results)
                    is Perform {
                    next == ShutdownStep::Finish(Err(error))
                } else {
                    next is Idle
                },
                Ok(_) => if results.len() == 0 {
                    next == ShutdownStep::Perform(Shutdown::Optimize)
                } else {
                    match last_output(Shutdown::start(), results) {
                        ShutdownStep::Perform(Shutdown::Optimize) => next == ShutdownStep::Perform(
                            Shutdown::Close,
                        ),
                        ShutdownStep::Perform(Shutdown::Close) => next
                            matches ShutdownStep::Finish(Ok(_)),
                        ShutdownStep::Perform(_) => false,
                        ShutdownStep::Finish(_) | ShutdownStep::Idle => next is Idle,
                    }
                },
            }
        }),
{
    lemma_told_one_more(Shutdown::start(), results, result);
}

/// A handle that is the only one lets go of its end of the queue, then sends the close signal, then
/// waits. A handle that is not the only one does nothing.
pub proof fn closing_takes_its_steps_in_order()
    ensures
        steps_from(close_step(false)) == seq![
            CloseStep::ReleaseSender,
            CloseStep::Signal,
            CloseStep::Join,
        ],
        steps_from(close_step(true)) == seq![CloseStep::Refuse],
{
    reveal_with_fuel(steps_from, 3);
    assert(seq![CloseStep::ReleaseSender] + (seq![CloseStep::Signal] + seq![CloseStep::Join])
        =~= seq![CloseStep::ReleaseSender, CloseStep::Signal, CloseStep::Join]);
}

} // verus!
