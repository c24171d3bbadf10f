//! Making a backup and removing old ones.

use crate::backup::{backup_file_name, backup_name, BACKUP_PREFIX, BACKUP_SUFFIX};
use crate::civil::{lemma_compact_text, lemma_rounded_valid, CivilDateTime};
use crate::config::admin::ClientError;
use crate::path::{
    is_component, joined, lemma_joined_utf8, lemma_plain_name, shown, FsPath, Platform,
};
use crate::text::{concat3, is_plain, lemma_plain_add};
use crate::trace::{last_output, lemma_told_one_more, state_after, Machine};
use vstd::prelude::*;
use vstd::utf8::*;

verus! {

/// A backup to be made.
#[derive(Debug)]
pub struct BackupPlan {
    /// Directory in which the backup is placed.
    pub directory: FsPath,

    /// Path of the backup. It is text because it is passed to the admin socket.
    pub path: String,
}

/// Error returned when the path of the backup directory is not UTF-8.
#[derive(Debug)]
pub struct BackupPathError {
    /// The backup directory.
    pub directory: FsPath,
}

impl BackupPathError {
    /// Describe the error.
    pub fn message(&self, platform: Platform) -> (res: String)
        ensures
            res@ == "backup directory must be UTF-8, backup dir: `"@ + shown(self.directory@, platform)
                + "`"@,
    {
        concat3(
            "backup directory must be UTF-8, backup dir: `",
            self.directory.display(platform).as_str(),
            "`",
        )
    }
}

/// The path of a backup in `directory` that is made at `now`.
pub open spec fn backup_path(
    now: CivilDateTime,
    directory: Seq<u8>,
    platform: Platform,
) -> Seq<u8> {
    joined(directory, encode_utf8(backup_name(now.rounded())), platform)
}

/// The file name of a backup is plain.
proof fn lemma_backup_name(at: CivilDateTime)
    requires
        at.valid(),
    ensures
        backup_name(at).len() > 0,
        is_plain(backup_name(at)),
        is_component(encode_utf8(backup_name(at))),
{
    reveal_strlit("novelnote_backup_");
    reveal_strlit(".sqlite3");
    lemma_compact_text(at);
    lemma_plain_add(BACKUP_PREFIX@, at.compact_text());
    lemma_plain_add(BACKUP_PREFIX@ + at.compact_text(), BACKUP_SUFFIX@);
    lemma_plain_name(backup_name(at));
}

impl BackupPlan {
    /// Plan a backup in `directory` that is made at `now`.
    ///
    /// # Errors
    ///
    /// Returns an error if the path of the directory is not UTF-8.
    pub fn new(now: CivilDateTime, directory: FsPath, platform: Platform) -> (res: Result<
        BackupPlan,
        BackupPathError,
    >)
        requires
            now.valid(),
            !now.rounds_out_of_range(),
        ensures
            res is Ok <==> valid_utf8(directory@),
            match res {
                Ok(plan) => {
                    &&& plan.directory == directory
                    &&& plan.path@ == decode_utf8(backup_path(now, directory@, platform))
                },
                Err(error) => error.directory == directory,
            },
    {
        proof {
            lemma_rounded_valid(now);
            lemma_backup_name(now.rounded());
            backup_path_is_utf8_if_its_directory_is(now, directory@, platform);
        }
        let name = backup_file_name(now);
        match directory.join(name.as_str(), platform).into_text() {
            Ok(path) => Ok(BackupPlan { directory, path }),
            Err(_) => Err(BackupPathError { directory }),
        }
    }
}

/// The path of a backup is UTF-8 if and only if that of its directory is.
pub proof fn backup_path_is_utf8_if_its_directory_is(
    now: CivilDateTime,
    directory: Seq<u8>,
    platform: Platform,
)
    requires
        now.valid(),
        !now.rounds_out_of_range(),
    ensures
        valid_utf8(backup_path(now, directory, platform)) <==> valid_utf8(directory),
{
    let name = backup_name(now.rounded());
    let bytes = encode_utf8(name);
    lemma_rounded_valid(now);
    lemma_backup_name(now.rounded());
    is_ascii_chars_encode_utf8(name);
    assert(bytes[0] == name[0] as u8);
    encode_utf8_valid_utf8(name);
    lemma_joined_utf8(directory, bytes, platform);
}

/// How far making a backup has come.
#[derive(Debug, Clone, Copy, PartialEq, Eq, Structural)]
pub enum BackupRun {
    /// It is looked up whether the backup directory exists.
    CheckingDirectory,

    /// The backup directory is created.
    CreatingDirectory,

    /// The backup is requested over the admin socket.
    Requesting,

    /// The backup directory is read.
    ReadingDirectory,

    /// Old backups are removed.
    Removing {
        /// Which one is being removed.
        index: usize,

        /// How many there are to remove.
        count: usize,
    },

    /// The backup is made and old ones are removed, or something failed.
    Finished,
}

/// What to do next to make a backup.
#[derive(Debug, Clone, Copy, PartialEq, Eq)]
pub enum BackupStep {
    /// Create the backup directory, with all that lead to it.
    CreateDirectory,

    /// Request the backup over the admin socket.
    Request,

    /// Read the backup directory and determine which backups are to be removed.
    ReadDirectory,

    /// Remove the old backup with this index.
    Remove(usize),

    /// Stop, with this result.
    Finish(Result<(), BackupRunError>),

    /// Nothing, the run was finished before.
    Idle,
}

/// What came of a step in making a backup.
#[derive(Debug, Clone, Copy, PartialEq, Eq, Structural)]
pub enum BackupEvent {
    /// The backup directory was looked up.
    Directory {
        /// Whether it exists.
        exists: bool,
    },

    /// What was asked for succeeded.
    Succeeded,

    /// What was asked for failed.
    Failed,

    /// The request over the admin socket failed.
    RequestFailed(ClientError),

    /// The backup directory could be read, but one of its entries could not.
    EntryFailed,

    /// The backup directory was read.
    OldBackups {
        /// How many backups are to be removed.
        count: usize,
    },
}

/// Error returned when making a backup or removing old ones fails.
#[derive(Debug, Clone, Copy, PartialEq, Eq, Structural)]
pub enum BackupRunError {
    /// The backup directory cannot be created.
    CreateDirectory,

    /// The backup cannot be requested or made.
    Request(ClientError),

    /// The backup directory cannot be read.
    ReadDirectory,

    /// An entry of the backup directory cannot be read.
    ReadEntry,

    /// The old backup with this index cannot be removed.
    Remove(usize),
}

impl BackupRunError {
    /// Describe the error, if there is anything to add to its source.
    ///
    /// `old_backup` is the path of the old backup that cannot be removed.
    pub fn message(
        &self,
        plan: &BackupPlan,
        old_backup: &FsPath,
        platform: Platform,
    ) -> (res: Option<String>)
        ensures
            match *self {
                BackupRunError::CreateDirectory => res matches Some(text) && text@
                    == "error creating database backup directory"@,
                BackupRunError::Request(ClientError::Request) => res matches Some(text) && text@
                    == "error creating database backup at `"@ + plan.path@ + "`"@,
                BackupRunError::Request(_) => res is None,
                BackupRunError::ReadDirectory => res matches Some(text) && text@
                    == "error reading backup directory: `"@ + shown(plan.directory@, platform) + "`"@,
                BackupRunError::ReadEntry => res matches Some(text) && text@
                    == "error reading database backup directory: `"@ + shown(plan.directory@, platform)
                    + "`"@,
                BackupRunError::Remove(_) => res matches Some(text) && text@
                    == "error removing old backup `"@ + shown(old_backup@, platform) + "`"@,
            },
    {
        match self {
            BackupRunError::CreateDirectory => Some(
                "error creating database backup directory".to_string(),
            ),
            BackupRunError::Request(ClientError::Request) => Some(
                concat3("error creating database backup at `", plan.path.as_str(), "`"),
            ),
            BackupRunError::Request(_) => None,
            BackupRunError::ReadDirectory => Some(
                concat3(
                    "error reading backup directory: `",
                    plan.directory.display(platform).as_str(),
                    "`",
                ),
            ),
            BackupRunError::ReadEntry => Some(
                concat3(
                    "error reading database backup directory: `",
                    plan.directory.display(platform).as_str(),
                    "`",
                ),
            ),
            BackupRunError::Remove(_) => Some(
                concat3("error removing old backup `", old_backup.display(platform).as_str(), "`"),
            ),
        }
    }
}

/// What the user is told of while a backup is made.
#[derive(Debug, Clone, Copy, PartialEq, Eq, Structural)]
pub enum BackupNotice {
    /// The backup directory was created.
    CreatedDirectory,

    /// The backup was made.
    CreatedBackup,

    /// An old backup was removed.
    RemovedBackup,
}

impl BackupNotice {
    /// What the user is told, given how the path of the directory or backup is shown.
    pub fn message(&self, path: &str) -> (res: String)
        ensures
            res@ == match *self {
                BackupNotice::CreatedDirectory => "Created database backup directory: `"@ + path@
                    + "`"@,
                BackupNotice::CreatedBackup => "Created backup: `"@ + path@ + "`"@,
                BackupNotice::RemovedBackup => "Removed old backup `"@ + path@ + "`"@,
            },
    {
        match self {
            BackupNotice::CreatedDirectory => concat3(
                "Created database backup directory: `",
                path,
                "`",
            ),
            BackupNotice::CreatedBackup => concat3("Created backup: `", path, "`"),
            BackupNotice::RemovedBackup => concat3("Removed old backup `", path, "`"),
        }
    }
}

/// Remove the old backup with the given index, or stop if there is none.
pub open spec fn remove_from(index: int, count: usize) -> (BackupRun, BackupStep) {
    if index < count {
        (
            BackupRun::Removing { index: index as usize, count },
            BackupStep::Remove(index as usize),
        )
    } else {
        (BackupRun::Finished, BackupStep::Finish(Ok(())))
    }
}

impl Machine for BackupRun {
    type Input = BackupEvent;

    type Output = BackupStep;

    open spec fn next(self, input: BackupEvent) -> (BackupRun, BackupStep) {
        match (self, input) {
            (BackupRun::CheckingDirectory, BackupEvent::Directory { exists: true })
            | (BackupRun::CreatingDirectory, BackupEvent::Succeeded) => (
                BackupRun::Requesting,
                BackupStep::Request,
            ),
            (BackupRun::CheckingDirectory, _) => (
                BackupRun::CreatingDirectory,
                BackupStep::CreateDirectory,
            ),
            (BackupRun::CreatingDirectory, _) => (
                BackupRun::Finished,
                BackupStep::Finish(Err(BackupRunError::CreateDirectory)),
            ),
            (BackupRun::Requesting, BackupEvent::Succeeded) => (
                BackupRun::ReadingDirectory,
                BackupStep::ReadDirectory,
            ),
            (BackupRun::Requesting, BackupEvent::RequestFailed(error)) => (
                BackupRun::Finished,
                BackupStep::Finish(Err(BackupRunError::Request(error))),
            ),
            (BackupRun::Requesting, _) => (
                BackupRun::Finished,
                BackupStep::Finish(Err(BackupRunError::Request(ClientError::Request))),
            ),
            (BackupRun::ReadingDirectory, BackupEvent::OldBackups { count }) => remove_from(
                0,
                count,
            ),
            (BackupRun::ReadingDirectory, BackupEvent::EntryFailed) => (
                BackupRun::Finished,
                BackupStep::Finish(Err(BackupRunError::ReadEntry)),
            ),
            (BackupRun::ReadingDirectory, _) => (
                BackupRun::Finished,
                BackupStep::Finish(Err(BackupRunError::ReadDirectory)),
            ),
            (BackupRun::Removing { index, count }, BackupEvent::Succeeded) => remove_from(
                index + 1,
                count,
            ),
            (BackupRun::Removing { index, .. }, _) => (
                BackupRun::Finished,
                BackupStep::Finish(Err(BackupRunError::Remove(index))),
            ),
            (BackupRun::Finished, _) => (BackupRun::Finished, BackupStep::Idle),
        }
    }
}

impl BackupRun {
    /// How the run begins.
    pub open spec fn start() -> BackupRun {
        BackupRun::CheckingDirectory
    }

    /// Begin to make a backup. It is to be looked up whether the backup directory exists.
    pub fn backup() -> (res: BackupRun)
        ensures
            res == BackupRun::CheckingDirectory,
            res == BackupRun::start(),
    {
        BackupRun::CheckingDirectory
    }

    /// Take in what came of the last step and determine what to do next.
    pub fn step(&mut self, event: BackupEvent) -> (res: BackupStep)
        ensures
            (*final(self), res) == old(self).next(event),
    {
        let error = match *self {
            BackupRun::CheckingDirectory => {
                match event {
                    BackupEvent::Directory { exists: true } => {
                        *self = BackupRun::Requesting;
                        return BackupStep::Request;
                    },
                    _ => {
                        *self = BackupRun::CreatingDirectory;
                        return BackupStep::CreateDirectory;
                    },
                }
            },
            BackupRun::CreatingDirectory => match event {
                BackupEvent::Succeeded => {
                    *self = BackupRun::Requesting;
                    return BackupStep::Request;
                },
                _ => BackupRunError::CreateDirectory,
            },
            BackupRun::Requesting => match event {
                BackupEvent::Succeeded => {
                    *self = BackupRun::ReadingDirectory;
                    return BackupStep::ReadDirectory;
                },
                BackupEvent::RequestFailed(error) => BackupRunError::Request(error),
                _ => BackupRunError::Request(ClientError::Request),
            },
            BackupRun::ReadingDirectory => match event {
                BackupEvent::OldBackups { count } => {
                    if count > 0 {
                        *self = BackupRun::Removing { index: 0, count };
                        return BackupStep::Remove(0);
                    }
                    *self = BackupRun::Finished;
                    return BackupStep::Finish(Ok(()));
                },
                BackupEvent::EntryFailed => BackupRunError::ReadEntry,
                _ => BackupRunError::ReadDirectory,
            },
            BackupRun::Removing { index, count } => match event {
                BackupEvent::Succeeded => {
                    if index < count && index + 1 < count {
                        *self = BackupRun::Removing { index: index + 1, count };
                        return BackupStep::Remove(index + 1);
                    }
                    *self = BackupRun::Finished;
                    return BackupStep::Finish(Ok(()));
                },
                _ => BackupRunError::Remove(index),
            },
            BackupRun::Finished => {
                return BackupStep::Idle;
            },
        };
        *self = BackupRun::Finished;
        BackupStep::Finish(Err(error))
    }
}

proof fn lemma_checked_only_at_first(events: Seq<BackupEvent>)
    requires
        events.len() > 0,
    ensures
        state_after(BackupRun::start(), events) != BackupRun::CheckingDirectory,
    decreases events.len(),
{
    if events.len() > 1 {
        lemma_checked_only_at_first(events.drop_last());
    }
}

/// The backup directory is created if and only if it does not exist.
pub proof fn backup_directory_is_created_if_missing(present: bool, later: Seq<BackupEvent>)
    ensures
        last_output(
            BackupRun::start(),
            seq![BackupEvent::Directory { exists: present }] + later,
        ) == BackupStep::CreateDirectory <==> !present && later.len() == 0,
{
    let events = seq![BackupEvent::Directory { exists: present }] + later;
    if later.len() == 0 {
        assert(events.drop_last() =~= Seq::<BackupEvent>::empty());
        assert(events.last() == (BackupEvent::Directory { exists: present }));
    } else {
        lemma_checked_only_at_first(events.drop_last());
    }
}

/// Whether the `k`th of `events` tells that the backup was made.
pub open spec fn made_at(events: Seq<BackupEvent>, k: int) -> bool {
    &&& 0 <= k < events.len()
    &&& events[k] == BackupEvent::Succeeded
    &&& state_after(BackupRun::start(), events.take(k)) == BackupRun::Requesting
}

proof fn lemma_made_before(events: Seq<BackupEvent>)
    requires
        match state_after(BackupRun::start(), events) {
            BackupRun::ReadingDirectory | BackupRun::Removing { .. } => true,
            _ => false,
        },
    ensures
        exists|k: int| made_at(events, k),
    decreases events.len(),
{
    let before = events.drop_last();
    let last = events.len() - 1;
    assert(events.take(last) =~= before);
    match state_after(BackupRun::start(), before) {
        BackupRun::Requesting => {
            assert(made_at(events, last));
        },
        _ => {
            lemma_made_before(before);
            let k = choose|k: int| made_at(before, k);
            assert(events.take(k) =~= before.take(k));
            assert(made_at(events, k));
        },
    }
}

/// An old backup is removed only after the new one was made.
pub proof fn old_backups_are_removed_after_the_new_one_is_made(
    events: Seq<BackupEvent>,
    index: usize,
)
    requires
        events.len() > 0,
        last_output(BackupRun::start(), events) == BackupStep::Remove(index),
    ensures
        exists|k: int| made_at(events.drop_last(), k),
{
    lemma_made_before(events.drop_last());
}

/// The events after the backup was made, if there are `count` backups to remove and the first
/// `removed` could be.
pub open spec fn removals(count: usize, removed: nat) -> Seq<BackupEvent> {
    seq![BackupEvent::OldBackups { count }] + Seq::new(removed, |i: int| BackupEvent::Succeeded)
}

/// All of the backups to remove are removed, one after the other, and that is the end.
pub proof fn old_backups_are_removed_in_turn(count: usize, removed: nat)
    requires
        removed <= count,
    ensures
        last_output(BackupRun::ReadingDirectory, removals(count, removed)) == if removed < count {
            BackupStep::Remove(removed as usize)
        } else {
            BackupStep::Finish(Ok(()))
        },
{
    lemma_removals(count, removed);
}

proof fn lemma_removals(count: usize, removed: nat)
    requires
        removed <= count,
    ensures
        (
            state_after(BackupRun::ReadingDirectory, removals(count, removed)),
            last_output(BackupRun::ReadingDirectory, removals(count, removed)),
        ) == remove_from(removed as int, count),
    decreases removed,
{
    let events = removals(count, removed);
    if removed == 0 {
        assert(events.drop_last() =~= Seq::<BackupEvent>::empty());
        assert(state_after(BackupRun::ReadingDirectory, events.drop_last())
            == BackupRun::ReadingDirectory);
    } else {
        lemma_removals(count, (removed - 1) as nat);
        assert(events.drop_last() =~= removals(count, (removed - 1) as nat));
    }
}

/// Where in `events` it is told what came of the request, if it came to that: after the backup
/// directory was looked up and, unless it exists, created.
pub open spec fn request_at(events: Seq<BackupEvent>) -> int {
    if events[0] == (BackupEvent::Directory { exists: true }) {
        1
    } else {
        2
    }
}

/// Whether the backup directory was there or was created, by the first of `events`.
pub open spec fn directory_is_there(events: Seq<BackupEvent>) -> bool {
    &&& events.len() >= request_at(events)
    &&& request_at(events) == 2 ==> events[1] == BackupEvent::Succeeded
}

/// Whether the backup was made after that, and the backup directory was read with `count` backups to
/// be removed, of which each that `events` tell of was removed.
pub open spec fn made_and_removing(events: Seq<BackupEvent>, count: usize) -> bool {
    let k = request_at(events);
    &&& directory_is_there(events)
    &&& events.len() >= k + 2
    &&& events[k] == BackupEvent::Succeeded
    &&& events[k + 1] == BackupEvent::OldBackups { count }
    &&& forall|i: int| k + 2 <= i < events.len() ==> #[trigger] events[i] == BackupEvent::Succeeded
}

proof fn lemma_removed_one_more(events: Seq<BackupEvent>, count: usize)
    requires
        events.len() > 0,
        made_and_removing(events.drop_last(), count),
        events.last() == BackupEvent::Succeeded,
    ensures
        made_and_removing(events, count),
{
    let before = events.drop_last();
    let k = request_at(events);
    assert(before[0] == events[0]);
    assert forall|i: int| k + 2 <= i < events.len() implies #[trigger] events[i]
        == BackupEvent::Succeeded by {
        if i < before.len() {
            assert(before[i] == BackupEvent::Succeeded);
        }
    }
}

/// The states of a run in which nothing failed, by what was told.
proof fn lemma_states_of_backup(events: Seq<BackupEvent>, count: usize)
    requires
        events.len() > 0,
    ensures
        ({
            let state = state_after(BackupRun::start(), events);
            let k = request_at(events);
            &&& state != BackupRun::CheckingDirectory
            &&& state == BackupRun::CreatingDirectory <==> k == 2 && events.len() == 1
            &&& state == BackupRun::Requesting <==> directory_is_there(events) && events.len() == k
            &&& state == BackupRun::ReadingDirectory <==> directory_is_there(events)
                && events.len() == k + 1 && events[k] == BackupEvent::Succeeded
            &&& state matches BackupRun::Removing { index, count } ==> index < count
                && events.len() == k + 2 + index && made_and_removing(events, count)
            &&& made_and_removing(events, count) && events.len() < k + 2 + count ==> state == (
            BackupRun::Removing { index: (events.len() - k - 2) as usize, count })
        }),
    decreases events.len(),
{
    let before = events.drop_last();
    if before.len() == 0 {
        reveal_with_fuel(state_after, 2);
    } else {
        lemma_states_of_backup(before, count);
        let k = request_at(events);
        assert(before[0] == events[0]);
        if made_and_removing(events, count) && events.len() > k + 2 {
            assert(made_and_removing(before, count));
        }
        match state_after(BackupRun::start(), before) {
            BackupRun::Removing { index, count } => {
                if events.last() == BackupEvent::Succeeded {
                    lemma_removed_one_more(events, count);
                }
            },
            _ => {},
        }
    }
}

/// Making a backup ends well if and only if the backup directory was there or was created, the
/// backup was made, the directory was read, and each of the backups to be removed was removed.
pub proof fn backup_ends_well_if_nothing_fails(events: Seq<BackupEvent>)
    requires
        events.len() > 0,
    ensures
        last_output(BackupRun::start(), events) == BackupStep::Finish(Ok(())) <==> exists|
            count: usize,
        | #[trigger]
            made_and_removing(events, count) && events.len() == request_at(events) + 2 + count,
{
    let before = events.drop_last();
    let k = request_at(events);
    if before.len() > 0 {
        assert(before[0] == events[0]);
        lemma_states_of_backup(before, 0);
        if last_output(BackupRun::start(), events) == BackupStep::Finish(Ok(())) {
            match state_after(BackupRun::start(), before) {
                BackupRun::Removing { index, count } => {
                    lemma_removed_one_more(events, count);
                },
                _ => {
                    assert(made_and_removing(events, 0));
                },
            }
        }
        if exists|count: usize| #[trigger]
            made_and_removing(events, count) && events.len() == k + 2 + count {
            let count = choose|count: usize| #[trigger]
                made_and_removing(events, count) && events.len() == k + 2 + count;
            lemma_states_of_backup(before, count);
            if count > 0 {
                assert(made_and_removing(before, count));
                assert(events.last() == BackupEvent::Succeeded);
            } else {
                assert(events.last() == (BackupEvent::OldBackups { count }));
            }
        }
    }
}

/// What is asked for to make a backup, given what was asked for before and what came of it. A failure
/// ends the run with an error that tells what failed.
pub proof fn backup_follows_its_events(events: Seq<BackupEvent>, event: BackupEvent)
    ensures
        ({
            let next = last_output(BackupRun::start(), events.push(event));
            if events.len() == 0 {
                next == if event == (BackupEvent::Directory { exists: true }) {
                    BackupStep::Request
                } else {
                    BackupStep::CreateDirectory
                }
            } else {
                match last_output(BackupRun::start(), events) {
                    BackupStep::CreateDirectory => next == if event == BackupEvent::Succeeded {
                        BackupStep::Request
                    } else {
                        BackupStep::Finish(Err(BackupRunError::CreateDirectory))
                    },
                    BackupStep::Request => next == match event {
                        BackupEvent::Succeeded => BackupStep::ReadDirectory,
                        BackupEvent::RequestFailed(error) => BackupStep::Finish(
                            Err(BackupRunError::Request(error)),
                        ),
                        _ => BackupStep::Finish(Err(BackupRunError::Request(ClientError::Request))),
                    },
                    BackupStep::ReadDirectory => next == match event {
                        BackupEvent::OldBackups { count } => if count > 0 {
                            BackupStep::Remove(0)
                        } else {
                            BackupStep::Finish(Ok(()))
                        },
                        BackupEvent::EntryFailed => BackupStep::Finish(
                            Err(BackupRunError::ReadEntry),
                        ),
                        _ => BackupStep::Finish(Err(BackupRunError::ReadDirectory)),
                    },
                    BackupStep::Remove(index) => if event == BackupEvent::Succeeded {
                        next == BackupStep::Finish(Ok(())) || next == BackupStep::Remove(
                            (index + 1) as usize,
                        )
                    } else {
                        next == BackupStep::Finish(Err(BackupRunError::Remove(index)))
                    },
                    BackupStep::Finish(_) | BackupStep::Idle => next == BackupStep::Idle,
                }
            }
        }),
{
    lemma_told_one_more(BackupRun::start(), events, event);
}

/// The path of a backup that is made in `directory` is that of an entry of it, whose name begins with
/// `novelnote_backup_` and ends with `.sqlite3`.
pub proof fn backup_is_placed_in_its_directory(
    now: CivilDateTime,
    directory: Seq<u8>,
    platform: Platform,
)
    ensures
        backup_path(now, directory, platform) == joined(
            directory,
            encode_utf8(
                "novelnote_backup_"@ + now.rounded().compact_text() + ".sqlite3"@,
            ),
            platform,
        ),
{
}

} // verus!
