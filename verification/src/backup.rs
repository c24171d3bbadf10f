//! Database backups: what they are called and which of them are kept.

pub mod run;

use crate::civil::{
    has_time, has_time_at, has_time_of_day, is_digit, is_in_date, lemma_compact_text,
    lemma_compact_text_has_time, lemma_rounded_valid, parse_date_time, parsed_date_time,
    round_to_second, write_date_time, CivilDateTime,
};
use crate::chronology::{instant, order_is_chronological};
use crate::path::FsPath;
use crate::text::{concat3, ends_with, remove_char, starts_with, strip_prefix, strip_suffix};
use vstd::prelude::*;

verus! {

/// What the file name of a backup starts with.
pub const BACKUP_PREFIX: &'static str = "novelnote_backup_";

/// What the file name of a backup ends with.
pub const BACKUP_SUFFIX: &'static str = ".sqlite3";

/// The file name of a backup made at `at`, a date and time with whole seconds.
pub open spec fn backup_name(at: CivilDateTime) -> Seq<char> {
    BACKUP_PREFIX@ + at.compact_text() + BACKUP_SUFFIX@
}

/// The date and time in the file name of a backup. Other file names have none, even if they hold a
/// date alone.
pub open spec fn named_date_time(name: Seq<char>) -> Option<CivilDateTime> {
    let rest = name.skip(BACKUP_PREFIX@.len() as int);
    let written = rest.take(rest.len() - BACKUP_SUFFIX@.len());
    if starts_with(name, BACKUP_PREFIX@) && ends_with(rest, BACKUP_SUFFIX@) && has_time(written) {
        parsed_date_time(written)
    } else {
        None
    }
}

/// The file name of a backup made at `now`, which is rounded to the nearest second.
pub fn backup_file_name(now: CivilDateTime) -> (res: String)
    requires
        now.valid(),
        !now.rounds_out_of_range(),
    ensures
        res@ == backup_name(now.rounded()),
{
    match round_to_second(now) {
        Ok(at) => {
            proof {
                lemma_rounded_valid(now);
                lemma_compact_text(at);
            }
            let written = write_date_time(at);
            let written = remove_char(written.as_str(), ':');
            concat3(BACKUP_PREFIX, written.as_str(), BACKUP_SUFFIX)
        },
        Err(_) => String::new(),
    }
}

/// The date and time in the file name of a backup, if `name` is one.
///
/// The file name that [`backup_file_name`] gives is one, and yields the date and time of the
/// backup.
pub fn backup_date_time(name: &str) -> (res: Option<CivilDateTime>)
    ensures
        res == named_date_time(name@),
        res matches Some(at) ==> at.valid(),
        forall|at: CivilDateTime|
            at.valid() && at.subsec_nanosecond == 0 && name@ == #[trigger] backup_name(at)
                ==> res == Some(at),
{
    proof {
        assert forall|at: CivilDateTime|
            at.valid() && name@ == #[trigger] backup_name(at) implies {
            let rest = name@.skip(BACKUP_PREFIX@.len() as int);
            &&& starts_with(name@, BACKUP_PREFIX@)
            &&& ends_with(rest, BACKUP_SUFFIX@)
            &&& rest.take(rest.len() - BACKUP_SUFFIX@.len()) == at.compact_text()
            &&& has_time(at.compact_text())
        } by {
            lemma_compact_text_has_time(at);
            let rest = name@.skip(BACKUP_PREFIX@.len() as int);
            assert(rest =~= at.compact_text() + BACKUP_SUFFIX@);
            assert(name@.subrange(0, BACKUP_PREFIX@.len() as int) =~= BACKUP_PREFIX@);
            assert(rest.subrange(rest.len() - BACKUP_SUFFIX@.len(), rest.len() as int)
                =~= BACKUP_SUFFIX@);
            assert(rest.take(rest.len() - BACKUP_SUFFIX@.len()) =~= at.compact_text());
        }
    }
    match strip_prefix(name, BACKUP_PREFIX) {
        Some(rest) => {
            assert(rest@ =~= name@.skip(BACKUP_PREFIX@.len() as int));
            match strip_suffix(rest, BACKUP_SUFFIX) {
                Some(written) => {
                    assert(written@ =~= rest@.take(rest@.len() - BACKUP_SUFFIX@.len()));
                    if has_time_of_day(written) {
                        parse_date_time(written)
                    } else {
                        None
                    }
                },
                None => None,
            }
        },
        None => None,
    }
}

/// A file that is named after a date alone is no backup.
pub proof fn date_without_time_names_no_backup(date: Seq<char>)
    requires
        forall|i: int| 0 <= i < date.len() ==> is_in_date(#[trigger] date[i]),
    ensures
        named_date_time(BACKUP_PREFIX@ + date + BACKUP_SUFFIX@) is None,
{
    let rest = (BACKUP_PREFIX@ + date + BACKUP_SUFFIX@).skip(BACKUP_PREFIX@.len() as int);
    assert(rest.take(rest.len() - BACKUP_SUFFIX@.len()) =~= date);
    assert forall|i: int| !has_time_at(date, i) by {
        if 0 <= i < date.len() {
            assert(is_in_date(date[i]));
        }
    }
}

/// An entry of the backup directory, as far as it could be read.
#[derive(Debug)]
pub enum ScannedEntry {
    /// The entry or its type could not be read.
    Failed(std::io::Error),

    /// The entry is not a file.
    Other,

    /// The entry is a file.
    File {
        /// File name.
        name: String,

        /// Path of the file.
        path: FsPath,
    },
}

/// A backup in the backup directory.
#[derive(Debug)]
pub struct BackupFile {
    /// Path of the backup.
    pub path: FsPath,

    /// When the backup was made, by its file name.
    pub date_time: CivilDateTime,
}

/// The backups among `entries`, in their order.
pub open spec fn backups_among(entries: Seq<ScannedEntry>) -> Seq<BackupFile>
    decreases entries.len(),
{
    if entries.len() == 0 {
        seq![]
    } else {
        let before = backups_among(entries.drop_last());
        match entries.last() {
            ScannedEntry::File { name, path } => match named_date_time(name@) {
                Some(date_time) => before.push(BackupFile { path, date_time }),
                None => before,
            },
            _ => before,
        }
    }
}

/// Whether `error` is the first failure among `entries`.
pub open spec fn first_failure(entries: Seq<ScannedEntry>, error: std::io::Error) -> bool {
    exists|i: int|
        {
            &&& 0 <= i < entries.len()
            &&& #[trigger] entries[i] == ScannedEntry::Failed(error)
            &&& forall|j: int| 0 <= j < i ==> !(#[trigger] entries[j] is Failed)
        }
}

/// Whether all of `entries` could be read.
pub open spec fn all_readable(entries: Seq<ScannedEntry>) -> bool {
    forall|i: int| 0 <= i < entries.len() ==> !(#[trigger] entries[i] is Failed)
}

/// Whether no backup comes before a newer one.
pub open spec fn newest_first(files: Seq<BackupFile>) -> bool {
    forall|i: int, j: int|
        0 <= i < j < files.len() ==> !(#[trigger] files[i]).date_time.before(
            (#[trigger] files[j]).date_time,
        )
}

/// Find the backups among the entries of a directory.
fn find_backups(entries: Vec<ScannedEntry>) -> (res: Result<Vec<BackupFile>, std::io::Error>)
    ensures
        match res {
            Ok(files) => all_readable(entries@) && files@ == backups_among(entries@),
            Err(error) => first_failure(entries@, error),
        },
{
    let ghost all = entries@;
    let mut files: Vec<BackupFile> = Vec::new();
    for entry in it: entries.into_iter()
        invariant
            it.seq() == all,
            files@ == backups_among(all.take(it.index() as int)),
            forall|j: int| 0 <= j < it.index() ==> !(#[trigger] all[j] is Failed),
    {
        let ghost i = it.index() as int;
        assert(all.take(i + 1).drop_last() =~= all.take(i));
        assert(all.take(i + 1).last() == all[i]);
        match entry {
            ScannedEntry::Failed(error) => {
                assert(all[i] == ScannedEntry::Failed(error));
                return Err(error);
            },
            ScannedEntry::Other => {},
            ScannedEntry::File { name, path } => {
                if let Some(date_time) = backup_date_time(name.as_str()) {
                    files.push(BackupFile { path, date_time });
                }
            },
        }
    }
    assert(all.take(all.len() as int) =~= all);
    Ok(files)
}

/// Put a backup into its place among backups that are sorted from newest to oldest.
fn insert_backup(files: &mut Vec<BackupFile>, file: BackupFile)
    requires
        newest_first(old(files)@),
    ensures
        newest_first(final(files)@),
        final(files)@.to_multiset() == old(files)@.to_multiset().insert(file),
{
    let mut at: usize = 0;
    let ghost before = files@;
    while at < files.len() && !files[at].date_time.is_before(&file.date_time)
        invariant
            files@ == before,
            at <= files@.len(),
            forall|j: int|
                0 <= j < at ==> !(#[trigger] files@[j]).date_time.before(file.date_time),
        decreases files.len() - at,
    {
        at += 1;
    }
    files.insert(at, file);
    proof {
        let after = files@;
        assert forall|i: int, j: int| 0 <= i < j < after.len() implies !(
        #[trigger] after[i]).date_time.before((#[trigger] after[j]).date_time) by {
            let x = if i < at {
                before[i]
            } else {
                before[i - 1]
            };
            let y = if j < at {
                before[j]
            } else {
                before[j - 1]
            };
            if i == at {
                assert(before[at as int].date_time.before(file.date_time));
                assert(at == j - 1 || !before[at as int].date_time.before(y.date_time));
            }
        }
        assert(after.remove(at as int) =~= before);
        broadcast use vstd::seq_lib::group_to_multiset_ensures;
        assert(after.to_multiset() =~= before.to_multiset().insert(file)) by {
            after.to_multiset_ensures();
            assert(after[at as int] == file);
            assert(after.contains(file));
            assert(after.to_multiset().count(file) > 0);
            assert(before.to_multiset() == after.to_multiset().remove(file));
        }
    }
}

/// Sort backups from newest to oldest.
fn sort_newest_first(files: Vec<BackupFile>) -> (res: Vec<BackupFile>)
    ensures
        newest_first(res@),
        res@.to_multiset() == files@.to_multiset(),
{
    let ghost all = files@;
    let mut res: Vec<BackupFile> = Vec::new();
    proof {
        broadcast use vstd::seq_lib::group_to_multiset_ensures;

        assert(all.take(0) =~= res@);
    }
    for file in it: files.into_iter()
        invariant
            it.seq() == all,
            newest_first(res@),
            res@.to_multiset() == all.take(it.index() as int).to_multiset(),
    {
        let ghost i = it.index() as int;
        assert(all[i] == file);
        insert_backup(&mut res, file);
        proof {
            broadcast use vstd::seq_lib::group_to_multiset_ensures;

            assert(all.take(i + 1) =~= all.take(i).push(all[i]));
        }
    }
    assert(all.take(all.len() as int) =~= all);
    res
}

/// How many backups to keep: at least one.
#[derive(Debug, Clone, Copy, PartialEq, Eq, Structural)]
pub struct KeepLast {
    count: u8,
}

impl KeepLast {
    /// The number of backups to keep.
    pub closed spec fn spec_get(self) -> u8 {
        self.count
    }

    #[verifier::type_invariant]
    spec fn at_least_one(self) -> bool {
        self.count >= 1
    }

    /// Keep the last `count` backups, unless that is none.
    pub fn new(count: u8) -> (res: Option<KeepLast>)
        ensures
            res is Some <==> count >= 1,
            res matches Some(keep) ==> keep.spec_get() == count,
    {
        if count >= 1 {
            Some(KeepLast { count })
        } else {
            None
        }
    }

    /// The number of backups to keep.
    pub fn get(self) -> (res: u8)
        ensures
            res == self.spec_get(),
            res >= 1,
    {
        proof {
            use_type_invariant(&self);
        }
        self.count
    }
}

/// Whether `removed` are the paths of what is left of `order` after its first `keep` backups.
pub open spec fn paths_after(order: Seq<BackupFile>, keep: int, removed: Seq<FsPath>) -> bool {
    if order.len() <= keep {
        removed.len() == 0
    } else {
        &&& removed.len() == order.len() - keep
        &&& forall|i: int| 0 <= i < removed.len() ==> #[trigger] removed[i] == order[keep + i].path
    }
}

/// Whether `removed` are the paths of those of `files` that are older than the last `keep`, from
/// newest to oldest. Where several backups bear the same date and time, any of them may count as
/// the newer.
pub open spec fn surplus(files: Seq<BackupFile>, keep: int, removed: Seq<FsPath>) -> bool {
    exists|order: Seq<BackupFile>|
        {
            &&& #[trigger] newest_first(order)
            &&& order.to_multiset() == files.to_multiset()
            &&& paths_after(order, keep, removed)
        }
}

/// Determine which of `files` to remove so that the last `keep_last` of them stay.
pub fn old_backups(files: Vec<BackupFile>, keep_last: KeepLast) -> (removed: Vec<FsPath>)
    ensures
        surplus(files@, keep_last.spec_get() as int, removed@),
{
    let order = sort_newest_first(files);
    let ghost all = order@;
    let ghost keep = keep_last.spec_get() as int;
    let mut left: u8 = keep_last.get();
    let mut removed: Vec<FsPath> = Vec::new();
    for file in it: order.into_iter()
        invariant
            it.seq() == all,
            0 <= keep,
            left == if it.index() < keep { keep - it.index() } else { 0 },
            paths_after(all.take(it.index() as int), keep, removed@),
    {
        let ghost i = it.index() as int;
        assert(all[i] == file);
        if left > 0 {
            left -= 1;
        } else {
            removed.push(file.path);
        }
    }
    assert(all.take(all.len() as int) =~= all);
    assert(newest_first(all));
    removed
}

/// Determine which backups in the backup directory to remove so that the last `keep_last` of them
/// stay.
///
/// # Errors
///
/// Returns the first error among `entries`.
pub fn remove_old_backups(entries: Vec<ScannedEntry>, keep_last: KeepLast) -> (res: Result<
    Vec<FsPath>,
    std::io::Error,
>)
    ensures
        res is Ok <==> all_readable(entries@),
        match res {
            Ok(removed) => surplus(
                backups_among(entries@),
                keep_last.spec_get() as int,
                removed@,
            ),
            Err(error) => first_failure(entries@, error),
        },
{
    match find_backups(entries) {
        Ok(files) => Ok(old_backups(files, keep_last)),
        Err(error) => Err(error),
    }
}

/// Whether the entry is a file at `path` whose name is that of a backup.
pub open spec fn is_backup_at(entry: ScannedEntry, path: FsPath) -> bool {
    entry matches ScannedEntry::File { name, path: at } && at == path && named_date_time(
        name@,
    ) is Some
}

proof fn lemma_backup_has_entry(entries: Seq<ScannedEntry>, file: BackupFile)
    requires
        backups_among(entries).contains(file),
    ensures
        exists|k: int|
            0 <= k < entries.len() && is_backup_at(#[trigger] entries[k], file.path),
    decreases entries.len(),
{
    let before = backups_among(entries.drop_last());
    if before.contains(file) {
        lemma_backup_has_entry(entries.drop_last(), file);
        let k = choose|k: int|
            0 <= k < entries.drop_last().len() && is_backup_at(
                #[trigger] entries.drop_last()[k],
                file.path,
            );
        assert(is_backup_at(entries[k], file.path));
    } else {
        let j = choose|j: int|
            0 <= j < backups_among(entries).len() && backups_among(entries)[j] == file;
        assert(j == before.len()) by {
            if j < before.len() {
                assert(before[j] == file);
            }
        }
        assert(is_backup_at(entries[entries.len() - 1], file.path));
    }
}

/// Only files that are named as backups are removed, and of those all but the last `keep`.
pub proof fn only_surplus_backups_are_removed(
    entries: Seq<ScannedEntry>,
    keep: int,
    removed: Seq<FsPath>,
)
    requires
        surplus(backups_among(entries), keep, removed),
        keep >= 1,
    ensures
        removed.len() == if backups_among(entries).len() > keep {
            backups_among(entries).len() - keep
        } else {
            0
        },
        forall|i: int|
            0 <= i < removed.len() ==> exists|k: int|
                0 <= k < entries.len() && is_backup_at(#[trigger] entries[k], #[trigger] removed[i]),
{
    broadcast use vstd::seq_lib::group_to_multiset_ensures;

    let order = choose|order: Seq<BackupFile>|
        {
            &&& #[trigger] newest_first(order)
            &&& order.to_multiset() == backups_among(entries).to_multiset()
            &&& paths_after(order, keep, removed)
        };
    order.to_multiset_ensures();
    backups_among(entries).to_multiset_ensures();
    assert forall|i: int| 0 <= i < removed.len() implies exists|k: int|
        0 <= k < entries.len() && is_backup_at(#[trigger] entries[k], #[trigger] removed[i]) by {
        let file = order[keep + i];
        assert(order.contains(file));
        assert(order.to_multiset().count(file) > 0);
        lemma_backup_has_entry(entries, file);
    }
}

/// Whether `path` is one of `paths`.
pub open spec fn among(paths: Seq<FsPath>, path: Seq<u8>) -> bool {
    exists|i: int| 0 <= i < paths.len() && (#[trigger] paths[i])@ == path
}

/// A backup that is newer than all others stays, whatever number of backups is kept.
pub proof fn newest_backup_is_kept(
    files: Seq<BackupFile>,
    keep: int,
    removed: Seq<FsPath>,
    newest: BackupFile,
)
    requires
        surplus(files, keep, removed),
        keep >= 1,
        files.contains(newest),
        forall|i: int, j: int|
            0 <= i < j < files.len() ==> (#[trigger] files[i]).path@ != (#[trigger] files[j]).path@,
        forall|i: int|
            0 <= i < files.len() && files[i] != newest ==> (
            #[trigger] files[i]).date_time.before(newest.date_time),
    ensures
        !among(removed, newest.path@),
{
    broadcast use vstd::seq_lib::group_to_multiset_ensures;

    let all = files;
    let order = choose|order: Seq<BackupFile>|
        {
            &&& #[trigger] newest_first(order)
            &&& order.to_multiset() == all.to_multiset()
            &&& paths_after(order, keep, removed)
        };
    order.to_multiset_ensures();
    all.to_multiset_ensures();
    assert(forall|f: BackupFile| order.contains(f) <==> all.contains(f)) by {
        assert forall|f: BackupFile| order.contains(f) <==> all.contains(f) by {
            assert(order.contains(f) <==> order.to_multiset().count(f) > 0);
            assert(all.contains(f) <==> all.to_multiset().count(f) > 0);
        }
    }
    let p = choose|p: int| 0 <= p < order.len() && order[p] == newest;
    assert(order[0] == newest) by {
        assert(order.contains(order[0]));
        assert(all.contains(order[0]));
        if order[0] != newest {
            let q = choose|q: int| 0 <= q < all.len() && all[q] == order[0];
            assert(all[q].date_time.before(newest.date_time));
            assert(0 < p);
        }
    }
    assert(all.no_duplicates());
    all.lemma_multiset_has_no_duplicates();
    order.lemma_multiset_has_no_duplicates_conv();
    if among(removed, newest.path@) {
        let i = choose|i: int| 0 <= i < removed.len() && (#[trigger] removed[i])@ == newest.path@;
        let other = order[keep + i];
        assert(other.path@ == newest.path@);
        assert(order.contains(other));
        let a = choose|a: int| 0 <= a < all.len() && all[a] == other;
        let b = choose|b: int| 0 <= b < all.len() && all[b] == newest;
        assert(a == b);
        assert(order[0] == order[keep + i]);
    }
}

/// No backup that stays is older than one that is removed.
pub proof fn kept_backups_are_no_older(
    files: Seq<BackupFile>,
    keep: int,
    removed: Seq<FsPath>,
    stays: BackupFile,
    goes: BackupFile,
)
    requires
        surplus(files, keep, removed),
        keep >= 1,
        files.contains(stays),
        files.contains(goes),
        !among(removed, stays.path@),
        among(removed, goes.path@),
        forall|i: int, j: int|
            0 <= i < j < files.len() ==> (#[trigger] files[i]).path@ != (#[trigger] files[j]).path@,
    ensures
        !stays.date_time.before(goes.date_time),
{
    broadcast use vstd::seq_lib::group_to_multiset_ensures;

    let all = files;
    let order = choose|order: Seq<BackupFile>|
        {
            &&& #[trigger] newest_first(order)
            &&& order.to_multiset() == all.to_multiset()
            &&& paths_after(order, keep, removed)
        };
    order.to_multiset_ensures();
    all.to_multiset_ensures();
    assert(order.to_multiset().count(stays) > 0);
    assert(order.contains(stays));
    let p = choose|p: int| 0 <= p < order.len() && order[p] == stays;
    assert(p < keep) by {
        if p >= keep {
            assert(removed[p - keep] == order[keep + (p - keep)].path);
        }
    }
    let i = choose|i: int| 0 <= i < removed.len() && (#[trigger] removed[i])@ == goes.path@;
    let other = order[keep + i];
    assert(other.path@ == goes.path@);
    assert(order.contains(other));
    assert(all.to_multiset().count(other) > 0);
    let a = choose|a: int| 0 <= a < all.len() && all[a] == other;
    let b = choose|b: int| 0 <= b < all.len() && all[b] == goes;
    assert(a == b);
    assert(order[keep + i] == goes);
    assert(!order[p].date_time.before(order[keep + i].date_time));
}

/// A file name has the date and time of a backup if and only if it is `novelnote_backup_`, a date and
/// time, and `.sqlite3`. The date and time are then what stands between the two.
pub proof fn backups_are_told_by_their_names(name: Seq<char>, written: Seq<char>)
    ensures
        has_time(written) ==> named_date_time("novelnote_backup_"@ + written + ".sqlite3"@)
            == parsed_date_time(written),
        named_date_time(name) is Some ==> {
            let between = name.subrange(
                "novelnote_backup_"@.len() as int,
                name.len() - ".sqlite3"@.len(),
            );
            &&& "novelnote_backup_"@.len() + ".sqlite3"@.len() <= name.len()
            &&& name == "novelnote_backup_"@ + between + ".sqlite3"@
            &&& has_time(between)
            &&& named_date_time(name) == parsed_date_time(between)
        },
{
    let prefix = BACKUP_PREFIX@;
    let suffix = BACKUP_SUFFIX@;
    let whole = prefix + written + suffix;
    let rest = whole.skip(prefix.len() as int);
    assert(rest =~= written + suffix);
    assert(whole.subrange(0, prefix.len() as int) =~= prefix);
    assert(rest.subrange(rest.len() - suffix.len(), rest.len() as int) =~= suffix);
    assert(rest.take(rest.len() - suffix.len()) =~= written);
    if named_date_time(name) is Some {
        let rest = name.skip(prefix.len() as int);
        let between = name.subrange(prefix.len() as int, name.len() - suffix.len());
        assert(between =~= rest.take(rest.len() - suffix.len()));
        assert(name =~= name.subrange(0, prefix.len() as int) + between + rest.subrange(
            rest.len() - suffix.len(),
            rest.len() as int,
        ));
    }
}

/// A date, a `T` and a digit make the beginning of a date and time, and a text in which another
/// character follows the date does not.
pub proof fn time_follows_the_date(date: Seq<char>, hour: char, rest: Seq<char>, other: char)
    requires
        forall|i: int|
            0 <= i < date.len() ==> ('0' <= #[trigger] date[i] <= '9') || date[i] == '-' || date[i]
                == '+',
        '0' <= hour <= '9',
        !('0' <= other <= '9') && other != '-' && other != '+' && other != 'T' && other != 't',
    ensures
        has_time(date + seq!['T', hour] + rest),
        !has_time(date + seq![other] + rest),
        !has_time(date),
{
    let text = date + seq!['T', hour] + rest;
    let n = date.len() as int;
    assert forall|j: int| 0 <= j < n implies is_in_date(#[trigger] text[j]) by {
        assert(text[j] == date[j]);
    }
    assert(text[n] == 'T' && text[n + 1] == hour && is_digit(hour));
    assert(has_time_at(text, n));
    let wrong = date + seq![other] + rest;
    assert(wrong[n] == other);
    assert forall|i: int| !has_time_at(wrong, i) by {
        if 0 <= i < n {
            assert(wrong[i] == date[i]);
        } else if i > n && has_time_at(wrong, i) {
            assert(is_in_date(wrong[n]));
        }
    }
    assert forall|i: int| !has_time_at(date, i) by {
        if 0 <= i < n {
            assert(is_in_date(date[i]));
        }
    }
}

/// The backups of a directory are found entry by entry: a file counts if and only if its name is that
/// of a backup, with its path and the date and time in its name, and nothing else counts.
pub proof fn backups_are_found_entry_by_entry(
    entries: Seq<ScannedEntry>,
    entry: ScannedEntry,
    more: Seq<ScannedEntry>,
)
    ensures
        backups_among(entries + more) == backups_among(entries) + backups_among(more),
        match entry {
            ScannedEntry::File { name, path } => match named_date_time(name@) {
                Some(date_time) => backups_among(seq![entry]) == seq![
                    BackupFile { path, date_time },
                ],
                None => backups_among(seq![entry]).len() == 0,
            },
            _ => backups_among(seq![entry]).len() == 0,
        },
    decreases more.len(),
{
    reveal_with_fuel(backups_among, 2);
    assert(seq![entry].drop_last() =~= Seq::<ScannedEntry>::empty());
    assert(Seq::<BackupFile>::empty() =~= backups_among(Seq::<ScannedEntry>::empty()));
    if more.len() == 0 {
        assert(entries + more =~= entries);
        assert(backups_among(entries) + backups_among(more) =~= backups_among(entries));
    } else {
        let before = more.drop_last();
        backups_are_found_entry_by_entry(entries, entry, before);
        assert((entries + more).drop_last() =~= entries + before);
        assert((entries + more).last() == more.last());
        assert(backups_among(entries + more) =~= backups_among(entries) + backups_among(more));
    }
}

/// Of backups at different paths, none that stays was made at an earlier time than one that is
/// removed.
pub proof fn kept_backups_were_made_no_earlier(
    files: Seq<BackupFile>,
    keep: int,
    removed: Seq<FsPath>,
    stays: BackupFile,
    goes: BackupFile,
)
    requires
        surplus(files, keep, removed),
        keep >= 1,
        files.contains(stays),
        files.contains(goes),
        stays.date_time.valid(),
        goes.date_time.valid(),
        !among(removed, stays.path@),
        among(removed, goes.path@),
        forall|i: int, j: int|
            0 <= i < j < files.len() ==> (#[trigger] files[i]).path@ != (#[trigger] files[j]).path@,
    ensures
        instant(stays.date_time) >= instant(goes.date_time),
{
    kept_backups_are_no_older(files, keep, removed, stays, goes);
    order_is_chronological(stays.date_time, goes.date_time);
}

/// Whether one of `files` is at `path`.
pub open spec fn is_path_of(files: Seq<BackupFile>, path: FsPath) -> bool {
    exists|k: int| 0 <= k < files.len() && (#[trigger] files[k]).path == path
}

/// Of backups at different paths, each that is removed is one of them and is removed once, so that
/// just as many stay as are to be kept, or all if there are not more.
pub proof fn each_backup_is_removed_at_most_once(
    files: Seq<BackupFile>,
    keep: int,
    removed: Seq<FsPath>,
)
    requires
        surplus(files, keep, removed),
        keep >= 1,
        forall|i: int, j: int|
            0 <= i < j < files.len() ==> (#[trigger] files[i]).path@ != (#[trigger] files[j]).path@,
    ensures
        removed.len() == if files.len() > keep {
            files.len() - keep
        } else {
            0
        },
        forall|i: int| 0 <= i < removed.len() ==> is_path_of(files, #[trigger] removed[i]),
        forall|i: int, j: int|
            0 <= i < j < removed.len() ==> (#[trigger] removed[i])@ != (#[trigger] removed[j])@,
{
    broadcast use vstd::seq_lib::group_to_multiset_ensures;

    let order = choose|order: Seq<BackupFile>|
        {
            &&& #[trigger] newest_first(order)
            &&& order.to_multiset() == files.to_multiset()
            &&& paths_after(order, keep, removed)
        };
    order.to_multiset_ensures();
    files.to_multiset_ensures();
    assert(files.no_duplicates());
    files.lemma_multiset_has_no_duplicates();
    order.lemma_multiset_has_no_duplicates_conv();
    assert forall|i: int| 0 <= i < order.len() implies files.contains(#[trigger] order[i]) by {
        assert(order.contains(order[i]));
        assert(order.to_multiset().count(order[i]) > 0);
    }
    assert forall|i: int| 0 <= i < removed.len() implies is_path_of(files, #[trigger] removed[i]) by {
        let file = order[keep + i];
        assert(files.contains(file));
        let k = choose|k: int| 0 <= k < files.len() && files[k] == file;
        assert(files[k].path == removed[i]);
    }
    assert forall|i: int, j: int| 0 <= i < j < removed.len() implies (#[trigger] removed[i])@ != (
    #[trigger] removed[j])@ by {
        let a = order[keep + i];
        let b = order[keep + j];
        assert(files.contains(a) && files.contains(b));
        let k = choose|k: int| 0 <= k < files.len() && files[k] == a;
        let l = choose|l: int| 0 <= l < files.len() && files[l] == b;
        assert(a != b);
        assert(k != l);
    }
}

/// A directory can be read if and only if each of its entries can, and otherwise the error is that of
/// the first which cannot.
pub proof fn first_unreadable_entry_is_the_error(
    before: Seq<ScannedEntry>,
    error: std::io::Error,
    after: Seq<ScannedEntry>,
    other: std::io::Error,
)
    requires
        forall|i: int| 0 <= i < before.len() ==> !(#[trigger] before[i] is Failed),
    ensures
        all_readable(before),
        !all_readable(before + seq![ScannedEntry::Failed(error)] + after),
        first_failure(before + seq![ScannedEntry::Failed(error)] + after, error),
        first_failure(before + seq![ScannedEntry::Failed(error)] + after, other) ==> other == error,
        !first_failure(before, error),
{
    let entries = before + seq![ScannedEntry::Failed(error)] + after;
    let n = before.len() as int;
    assert(entries[n] == ScannedEntry::Failed(error));
    assert forall|j: int| 0 <= j < n implies !(#[trigger] entries[j] is Failed) by {
        assert(entries[j] == before[j]);
    }
}

/// Old backups are removed from the newest to the oldest.
pub proof fn old_backups_are_removed_from_newest_to_oldest(
    files: Seq<BackupFile>,
    keep: int,
    removed: Seq<FsPath>,
    i: int,
    j: int,
    a: BackupFile,
    b: BackupFile,
)
    requires
        surplus(files, keep, removed),
        keep >= 1,
        0 <= i < j < removed.len(),
        files.contains(a),
        files.contains(b),
        a.path@ == removed[i]@,
        b.path@ == removed[j]@,
        a.date_time.valid(),
        b.date_time.valid(),
        forall|i: int, j: int|
            0 <= i < j < files.len() ==> (#[trigger] files[i]).path@ != (#[trigger] files[j]).path@,
    ensures
        instant(a.date_time) >= instant(b.date_time),
{
    broadcast use vstd::seq_lib::group_to_multiset_ensures;

    let order = choose|order: Seq<BackupFile>|
        {
            &&& #[trigger] newest_first(order)
            &&& order.to_multiset() == files.to_multiset()
            &&& paths_after(order, keep, removed)
        };
    order.to_multiset_ensures();
    files.to_multiset_ensures();
    lemma_same_path_same_file(files, order, keep + i, a);
    lemma_same_path_same_file(files, order, keep + j, b);
    assert(!order[keep + i].date_time.before(order[keep + j].date_time));
    order_is_chronological(a.date_time, b.date_time);
}

proof fn lemma_same_path_same_file(
    files: Seq<BackupFile>,
    order: Seq<BackupFile>,
    at: int,
    file: BackupFile,
)
    requires
        order.to_multiset() == files.to_multiset(),
        0 <= at < order.len(),
        files.contains(file),
        order[at].path@ == file.path@,
        forall|i: int, j: int|
            0 <= i < j < files.len() ==> (#[trigger] files[i]).path@ != (#[trigger] files[j]).path@,
    ensures
        order[at] == file,
{
    broadcast use vstd::seq_lib::group_to_multiset_ensures;

    order.to_multiset_ensures();
    files.to_multiset_ensures();
    let other = order[at];
    assert(order.contains(other));
    assert(order.to_multiset().count(other) > 0);
    assert(files.contains(other));
    let k = choose|k: int| 0 <= k < files.len() && files[k] == other;
    let l = choose|l: int| 0 <= l < files.len() && files[l] == file;
    assert(k == l);
}

} // verus!
