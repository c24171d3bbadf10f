use novelnote::backup::run::{
    BackupEvent, BackupNotice, BackupPlan, BackupRun, BackupRunError, BackupStep,
};
use novelnote::backup::{
    backup_date_time, backup_file_name, old_backups, remove_old_backups, BackupFile, KeepLast,
    ScannedEntry,
};
use novelnote::civil::CivilDateTime;
use novelnote::config::admin::ClientError;
use novelnote::path::{FsPath, Platform};

fn date(year: i16, month: i8, day: i8) -> CivilDateTime {
    CivilDateTime { year, month, day, hour: 0, minute: 0, second: 0, subsec_nanosecond: 0 }
}

fn at(hour: i8, minute: i8, second: i8, subsec_nanosecond: i32) -> CivilDateTime {
    CivilDateTime { hour, minute, second, subsec_nanosecond, ..date(2026, 1, 2) }
}

fn file(name: &str) -> ScannedEntry {
    ScannedEntry::File { name: name.to_owned(), path: FsPath::new(&format!("/backup/{name}")) }
}

fn keep(count: u8) -> KeepLast {
    KeepLast::new(count).expect("at least one")
}

fn shown(paths: &[FsPath]) -> Vec<String> {
    paths.iter().map(|path| path.display(Platform::Linux)).collect()
}

#[test]
fn backup_is_named_after_its_date_and_time() {
    let now = at(15, 45, 0, 0);
    assert_eq!(backup_file_name(now), "novelnote_backup_2026-01-02T154500.sqlite3");
}

#[test]
fn backup_name_is_rounded_to_the_nearest_second() {
    assert_eq!(
        backup_file_name(at(3, 4, 5, 499_999_999)),
        "novelnote_backup_2026-01-02T030405.sqlite3"
    );
    assert_eq!(
        backup_file_name(at(3, 4, 5, 500_000_000)),
        "novelnote_backup_2026-01-02T030406.sqlite3"
    );
    assert_eq!(
        backup_file_name(at(3, 59, 59, 500_000_000)),
        "novelnote_backup_2026-01-02T040000.sqlite3"
    );
    assert_eq!(
        backup_file_name(at(23, 59, 59, 999_999_999)),
        "novelnote_backup_2026-01-03T000000.sqlite3"
    );
}

#[test]
fn rounding_leaves_the_range_only_at_its_ends() {
    let late = |day: CivilDateTime, subsec_nanosecond: i32| CivilDateTime {
        hour: 23,
        minute: 59,
        second: 59,
        subsec_nanosecond,
        ..day
    };
    for day in [date(9999, 12, 31), date(-9999, 1, 1)] {
        assert!(late(day, 500_000_000).is_rounded_out_of_range());
        assert!(!late(day, 499_999_999).is_rounded_out_of_range());
        assert!(!day.is_rounded_out_of_range());
    }
    for day in [date(9999, 12, 30), date(9999, 1, 1), date(-9999, 12, 31), date(2026, 1, 2)] {
        assert!(!late(day, 999_999_999).is_rounded_out_of_range());
    }
}

#[test]
fn rounding_past_midnight_takes_the_date_along() {
    let late = |day: CivilDateTime| CivilDateTime {
        hour: 23,
        minute: 59,
        second: 59,
        subsec_nanosecond: 500_000_000,
        ..day
    };
    assert_eq!(
        backup_file_name(late(date(2024, 2, 28))),
        "novelnote_backup_2024-02-29T000000.sqlite3"
    );
    assert_eq!(
        backup_file_name(late(date(2025, 2, 28))),
        "novelnote_backup_2025-03-01T000000.sqlite3"
    );
    assert_eq!(
        backup_file_name(late(date(2025, 12, 31))),
        "novelnote_backup_2026-01-01T000000.sqlite3"
    );
    assert_eq!(
        backup_file_name(late(date(0, 5, 5))),
        "novelnote_backup_0000-05-05T000000.sqlite3"
    );
    assert_eq!(
        backup_file_name(late(date(-1, 3, 1))),
        "novelnote_backup_-000001-02-28T000000.sqlite3"
    );
    assert_eq!(
        backup_file_name(late(date(-4, 1, 1))),
        "novelnote_backup_-000005-12-31T000000.sqlite3"
    );
}

#[test]
fn backup_name_gives_back_the_date_and_time() {
    for now in [
        at(15, 45, 0, 0),
        at(0, 0, 0, 0),
        at(23, 59, 59, 0),
        date(9999, 12, 31),
        date(0, 1, 1),
        date(-9999, 1, 1),
    ] {
        assert_eq!(backup_date_time(&backup_file_name(now)), Some(now));
    }
}

#[test]
fn other_names_are_not_those_of_backups() {
    for name in [
        "",
        "novelnote.sqlite3",
        "novelnote_backup_.sqlite3",
        "novelnote_backup_2026-01-02T154500",
        "novelnote_backup_2026-13-02T154500.sqlite3",
        "novelnote_backup_today.sqlite3",
        "novelnote_backup_2026-01-01.sqlite3",
        "novelnote_backup_20260101.sqlite3",
        "novelnote_backup_2026-01-01T.sqlite3",
        "novelnote_backup_2026-01-01[Etc/T1].sqlite3",
        "old_novelnote_backup_2026-01-02T154500.sqlite3",
        "novelnote_backup_2026-01-02T154500.sqlite3.bak",
    ] {
        assert_eq!(backup_date_time(name), None, "{name}");
    }
}

#[test]
fn keeping_no_backup_is_refused() {
    assert!(KeepLast::new(0).is_none());
    assert_eq!(keep(1).get(), 1);
    assert_eq!(keep(255).get(), 255);
}

#[test]
fn surplus_backups_are_removed_from_newest_to_oldest() {
    let entries = vec![
        file("novelnote_backup_2026-01-02T154500.sqlite3"),
        file("novelnote_backup_2025-01-02T154500.sqlite3"),
        file("novelnote_backup_2026-01-02T154501.sqlite3"),
        ScannedEntry::Other,
        file("notes.txt"),
        file("novelnote_backup_2024-01-02T154500.sqlite3"),
    ];
    let removed = remove_old_backups(entries, keep(2)).expect("readable");
    assert_eq!(
        shown(&removed),
        [
            "/backup/novelnote_backup_2025-01-02T154500.sqlite3",
            "/backup/novelnote_backup_2024-01-02T154500.sqlite3",
        ]
    );
}

#[test]
fn file_named_after_a_date_alone_is_no_backup() {
    let entries = vec![
        file("novelnote_backup_2026-01-01.sqlite3"),
        file("novelnote_backup_2026-01-02T000000.sqlite3"),
    ];
    assert!(remove_old_backups(entries, keep(1)).expect("readable").is_empty());
}

#[test]
fn times_may_be_written_in_several_ways() {
    for name in [
        "novelnote_backup_2026-01-02T154500.sqlite3",
        "novelnote_backup_2026-01-02t15:45:00.sqlite3",
        "novelnote_backup_20260102T1545.sqlite3",
        "novelnote_backup_+002026-01-02T15:45.sqlite3",
    ] {
        assert_eq!(backup_date_time(name), Some(at(15, 45, 0, 0)), "{name}");
    }
}

#[test]
fn nothing_is_removed_while_there_are_few_backups() {
    let entries = vec![
        file("novelnote_backup_2026-01-02T154500.sqlite3"),
        file("novelnote_backup_2025-01-02T154500.sqlite3"),
    ];
    assert!(remove_old_backups(entries, keep(2)).expect("readable").is_empty());
    assert!(remove_old_backups(vec![], keep(5)).expect("readable").is_empty());
}

#[test]
fn newest_backup_stays() {
    let entries = vec![
        file("novelnote_backup_2023-01-02T154500.sqlite3"),
        file("novelnote_backup_2026-01-02T154500.sqlite3"),
        file("novelnote_backup_2024-01-02T154500.sqlite3"),
    ];
    let removed = remove_old_backups(entries, keep(1)).expect("readable");
    assert_eq!(
        shown(&removed),
        [
            "/backup/novelnote_backup_2024-01-02T154500.sqlite3",
            "/backup/novelnote_backup_2023-01-02T154500.sqlite3",
        ]
    );
}

#[test]
fn first_unreadable_entry_is_the_error() {
    let entries = vec![
        file("novelnote_backup_2023-01-02T154500.sqlite3"),
        ScannedEntry::Failed(std::io::Error::other("first")),
        ScannedEntry::Failed(std::io::Error::other("second")),
    ];
    let error = remove_old_backups(entries, keep(1)).expect_err("unreadable");
    assert_eq!(error.to_string(), "first");
}

#[test]
fn kept_backups_are_not_older_than_removed_ones() {
    let files = (1..=9)
        .map(|day| BackupFile {
            path: FsPath::new(&format!("{day}")),
            date_time: date(2026, 1, (day * 4) % 9 + 1),
        })
        .collect();
    let removed = old_backups(files, keep(4));
    let mut days: Vec<i32> = shown(&removed)
        .iter()
        .map(|path| path.parse::<i32>().expect("a number"))
        .map(|day| (day * 4) % 9 + 1)
        .collect();
    days.sort_unstable();
    assert_eq!(days, [1, 2, 3, 4, 5]);
}

#[test]
fn backup_is_planned_in_its_directory() {
    let plan = BackupPlan::new(at(15, 45, 0, 0), FsPath::new("/data/backup"), Platform::Linux)
        .expect("UTF-8");
    assert_eq!(plan.path, "/data/backup/novelnote_backup_2026-01-02T154500.sqlite3");
    assert_eq!(plan.directory.display(Platform::Linux), "/data/backup");

    let plan = BackupPlan::new(at(15, 45, 0, 0), FsPath::new("/"), Platform::Linux);
    assert_eq!(
        plan.expect("UTF-8").path,
        "/novelnote_backup_2026-01-02T154500.sqlite3"
    );

    let plan = BackupPlan::new(at(15, 45, 0, 0), FsPath::new("C:\\Büch"), Platform::Windows);
    assert_eq!(
        plan.expect("UTF-8").path,
        "C:\\Büch\\novelnote_backup_2026-01-02T154500.sqlite3"
    );
}

#[test]
fn backup_directory_must_be_text() {
    let directory = FsPath { bytes: vec![b'/', b'a', 0xff] };
    let error = BackupPlan::new(at(15, 45, 0, 0), directory, Platform::Linux).expect_err("bytes");
    assert_eq!(
        error.message(Platform::Linux),
        "backup directory must be UTF-8, backup dir: `/a\u{fffd}`"
    );
}

#[test]
fn backup_runs_through_all_steps() {
    let mut run = BackupRun::backup();
    assert_eq!(run.step(BackupEvent::Directory { exists: false }), BackupStep::CreateDirectory);
    assert_eq!(run.step(BackupEvent::Succeeded), BackupStep::Request);
    assert_eq!(run.step(BackupEvent::Succeeded), BackupStep::ReadDirectory);
    assert_eq!(run.step(BackupEvent::OldBackups { count: 2 }), BackupStep::Remove(0));
    assert_eq!(run.step(BackupEvent::Succeeded), BackupStep::Remove(1));
    assert_eq!(run.step(BackupEvent::Succeeded), BackupStep::Finish(Ok(())));
    assert_eq!(run.step(BackupEvent::Succeeded), BackupStep::Idle);
}

#[test]
fn existing_backup_directory_is_left_alone() {
    let mut run = BackupRun::backup();
    assert_eq!(run.step(BackupEvent::Directory { exists: true }), BackupStep::Request);
    assert_eq!(run.step(BackupEvent::Succeeded), BackupStep::ReadDirectory);
    assert_eq!(run.step(BackupEvent::OldBackups { count: 0 }), BackupStep::Finish(Ok(())));
}

#[test]
fn backup_ends_well_only_if_each_step_does() {
    let events = [
        BackupEvent::Directory { exists: false },
        BackupEvent::Succeeded,
        BackupEvent::Succeeded,
        BackupEvent::OldBackups { count: 2 },
        BackupEvent::Succeeded,
        BackupEvent::Succeeded,
    ];
    for failing in 1..events.len() {
        let mut run = BackupRun::backup();
        for (i, event) in events.into_iter().enumerate() {
            let event = if i == failing { BackupEvent::Failed } else { event };
            assert_ne!(run.step(event), BackupStep::Finish(Ok(())));
        }
        assert_eq!(run, BackupRun::Finished);
    }
}

#[test]
fn failed_backup_removes_nothing() {
    let mut run = BackupRun::backup();
    run.step(BackupEvent::Directory { exists: true });
    assert_eq!(
        run.step(BackupEvent::RequestFailed(ClientError::Connect)),
        BackupStep::Finish(Err(BackupRunError::Request(ClientError::Connect)))
    );
    assert_eq!(run.step(BackupEvent::OldBackups { count: 3 }), BackupStep::Idle);
}

#[test]
fn failures_of_a_backup_are_told_apart() {
    let plan = BackupPlan::new(at(15, 45, 0, 0), FsPath::new("/b"), Platform::Linux)
        .expect("UTF-8");
    let old = FsPath::new("/b/old");
    let message = |error: BackupRunError| error.message(&plan, &old, Platform::Linux);

    let mut run = BackupRun::CreatingDirectory;
    let error = BackupRunError::CreateDirectory;
    assert_eq!(run.step(BackupEvent::Failed), BackupStep::Finish(Err(error)));
    assert_eq!(message(error).as_deref(), Some("error creating database backup directory"));

    let mut run = BackupRun::Requesting;
    let error = BackupRunError::Request(ClientError::Request);
    assert_eq!(run.step(BackupEvent::Failed), BackupStep::Finish(Err(error)));
    assert_eq!(
        message(error).as_deref(),
        Some(
            "error creating database backup at \
             `/b/novelnote_backup_2026-01-02T154500.sqlite3`"
        )
    );
    assert_eq!(message(BackupRunError::Request(ClientError::Disabled)), None);

    let mut run = BackupRun::ReadingDirectory;
    let error = BackupRunError::ReadDirectory;
    assert_eq!(run.step(BackupEvent::Failed), BackupStep::Finish(Err(error)));
    assert_eq!(message(error).as_deref(), Some("error reading backup directory: `/b`"));

    let mut run = BackupRun::ReadingDirectory;
    let error = BackupRunError::ReadEntry;
    assert_eq!(run.step(BackupEvent::EntryFailed), BackupStep::Finish(Err(error)));
    assert_eq!(message(error).as_deref(), Some("error reading database backup directory: `/b`"));

    let mut run = BackupRun::Removing { index: 1, count: 3 };
    let error = BackupRunError::Remove(1);
    assert_eq!(run.step(BackupEvent::Failed), BackupStep::Finish(Err(error)));
    assert_eq!(message(error).as_deref(), Some("error removing old backup `/b/old`"));
}

#[test]
fn backup_tells_what_it_does() {
    assert_eq!(
        BackupNotice::CreatedDirectory.message("/b"),
        "Created database backup directory: `/b`"
    );
    assert_eq!(BackupNotice::CreatedBackup.message("/b/c"), "Created backup: `/b/c`");
    assert_eq!(BackupNotice::RemovedBackup.message("/b/d"), "Removed old backup `/b/d`");
}
