//! Backup bookkeeping: the names of numbered backup files next to the database,
//! reading numbers back from them, choosing the next number, and ordering
//! backups newest first.

use vstd::prelude::*;

use crate::sort::{SortKey, is_stable_sort_of, stable_sort};
use crate::text::{decimal_spec, lemma_parse_u32_decimal, parse_u32, parse_u32_spec, push_decimal};

verus! {

/// Declares `std::path::PathBuf`, which backup listings carry through.
#[verifier::external_type_specification]
#[verifier::external_body]
pub struct ExPathBuf(std::path::PathBuf);

/// A backup file: its number, where it is, its size in bytes, and how many
/// seconds ago it was last modified, when that is known.
#[derive(Debug)]
pub struct BackupInfo {
    pub number: u32,
    pub path: std::path::PathBuf,
    pub size: u64,
    pub modified_time: Option<u64>,
}

impl SortKey for BackupInfo {
    /// Higher numbers first.
    open spec fn sorts_before(self, other: Self) -> bool {
        self.number >= other.number
    }

    fn sorts_before_exec(&self, other: &Self) -> (r: bool) {
        self.number >= other.number
    }

    proof fn lemma_sorts_before_total(a: Self, b: Self) {
    }

    proof fn lemma_sorts_before_trans(a: Self, b: Self, c: Self) {
    }
}

/// The database name used when the database path has no name in UTF-8.
pub const DEFAULT_DATABASE_NAME: &'static str = "database.db";

/// The text between the database name and the number of a backup file.
pub const BACKUP_NAME_INFIX: &'static str = ".bak.";

/// The name the backups of a database are named after: its file name, or
/// `database.db` when it has none.
pub fn backup_database_name(file_name: Option<&str>) -> (r: String)
    ensures
        r@ == (match file_name {
            Some(n) => n@,
            None => DEFAULT_DATABASE_NAME@,
        }),
{
    match file_name {
        Some(n) => n.to_owned(),
        None => DEFAULT_DATABASE_NAME.to_owned(),
    }
}

/// The start of the names of a database's backup files: `{db_name}.bak.`.
pub open spec fn backup_prefix_spec(db_name: Seq<char>) -> Seq<char> {
    db_name + BACKUP_NAME_INFIX@
}

/// The name of backup `number` of a database: `{db_name}.bak.{number}`.
pub open spec fn backup_file_name_spec(db_name: Seq<char>, number: u32) -> Seq<char> {
    backup_prefix_spec(db_name) + decimal_spec(number as nat)
}

/// The number of the backup a file name names, if it names one: the name
/// starts with `{db_name}.bak.` and the rest reads as a `u32`.
pub open spec fn backup_number_spec(db_name: Seq<char>, file_name: Seq<char>) -> Option<u32> {
    let prefix = backup_prefix_spec(db_name);
    if prefix.len() <= file_name.len() && file_name.subrange(0, prefix.len() as int) == prefix {
        parse_u32_spec(file_name.skip(prefix.len() as int))
    } else {
        None
    }
}

/// The start of the names of a database's backup files: `{db_name}.bak.`.
pub fn backup_name_prefix(db_name: &str) -> (r: String)
    ensures
        r@ == backup_prefix_spec(db_name@),
{
    let mut s = db_name.to_owned();
    s.append(BACKUP_NAME_INFIX);
    s
}

/// The name of backup `number` of a database: `{db_name}.bak.{number}`.
pub fn backup_file_name(db_name: &str, number: u32) -> (r: String)
    ensures
        r@ == backup_file_name_spec(db_name@, number),
{
    let mut s = backup_name_prefix(db_name);
    push_decimal(&mut s, number as u64);
    s
}

/// The number of the backup `file_name` names, if it names one of the
/// backups of `db_name`.
pub fn backup_number_from_file_name(db_name: &str, file_name: &str) -> (r: Option<u32>)
    ensures
        r == backup_number_spec(db_name@, file_name@),
{
    let prefix = backup_name_prefix(db_name);
    let p = prefix.as_str();
    let plen = p.unicode_len();
    let n = file_name.unicode_len();
    if plen > n {
        return None;
    }
    let mut i: usize = 0;
    while i < plen
        invariant
            plen == p@.len(),
            n == file_name@.len(),
            plen <= n,
            i <= plen,
            p@ == backup_prefix_spec(db_name@),
            file_name@.subrange(0, i as int) == p@.subrange(0, i as int),
        decreases plen - i,
    {
        if file_name.get_char(i) != p.get_char(i) {
            assert(file_name@.subrange(0, plen as int)[i as int] != p@[i as int]);
            return None;
        }
        assert(file_name@.subrange(0, i + 1) =~= file_name@.subrange(0, i as int).push(
            file_name@[i as int],
        ));
        assert(p@.subrange(0, i + 1) =~= p@.subrange(0, i as int).push(p@[i as int]));
        i = i + 1;
    }
    assert(p@.subrange(0, plen as int) =~= p@);
    parse_u32(file_name.substring_char(plen, n))
}

/// The highest backup number among `file_names`, 0 when none names a backup.
pub open spec fn max_backup_number_spec(db_name: Seq<char>, file_names: Seq<Seq<char>>) -> nat
    decreases file_names.len(),
{
    if file_names.len() == 0 {
        0
    } else {
        let prev = max_backup_number_spec(db_name, file_names.drop_last());
        match backup_number_spec(db_name, file_names.last()) {
            Some(k) => if k > prev {
                k as nat
            } else {
                prev
            },
            None => prev,
        }
    }
}

/// No file name names the backup numbered `u32::MAX` (after which no number
/// is left).
pub open spec fn backup_numbers_not_exhausted(db_name: Seq<char>, file_names: Seq<Seq<char>>) -> bool {
    forall|i: int|
        0 <= i < file_names.len() ==> backup_number_spec(db_name, #[trigger] file_names[i])
            != Some(u32::MAX)
}

proof fn lemma_max_backup_number_bound(db_name: Seq<char>, file_names: Seq<Seq<char>>)
    requires
        backup_numbers_not_exhausted(db_name, file_names),
    ensures
        max_backup_number_spec(db_name, file_names) < u32::MAX,
        forall|i: int|
            0 <= i < file_names.len() ==> (backup_number_spec(db_name, #[trigger] file_names[i])
                matches Some(k) ==> k <= max_backup_number_spec(db_name, file_names)),
    decreases file_names.len(),
{
    if file_names.len() > 0 {
        let q = file_names.drop_last();
        assert forall|i: int| 0 <= i < q.len() implies backup_number_spec(db_name, #[trigger] q[i])
            != Some(u32::MAX) by {
            assert(q[i] == file_names[i]);
        }
        lemma_max_backup_number_bound(db_name, q);
        assert(backup_number_spec(db_name, file_names[file_names.len() - 1]) != Some(u32::MAX));
        assert forall|i: int|
            0 <= i < file_names.len() implies (backup_number_spec(
            db_name,
            #[trigger] file_names[i],
        ) matches Some(k) ==> k <= max_backup_number_spec(db_name, file_names)) by {
            if i < q.len() {
                assert(q[i] == file_names[i]);
            }
        }
    }
}

/// The number for a new backup: one more than the highest backup number
/// among the file names of the backup directory.
pub fn next_backup_number(db_name: &str, file_names: &[String]) -> (r: u32)
    requires
        backup_numbers_not_exhausted(db_name@, file_names@.map_values(|s: String| s@)),
    ensures
        r == max_backup_number_spec(db_name@, file_names@.map_values(|s: String| s@)) + 1,
{
    let ghost names = file_names@.map_values(|s: String| s@);
    proof {
        lemma_max_backup_number_bound(db_name@, names);
    }
    let mut max_number: u32 = 0;
    let mut i: usize = 0;
    assert(names.take(0) =~= Seq::<Seq<char>>::empty());
    while i < file_names.len()
        invariant
            i <= file_names@.len(),
            names == file_names@.map_values(|s: String| s@),
            max_number == max_backup_number_spec(db_name@, names.take(i as int)),
            max_backup_number_spec(db_name@, names) < u32::MAX,
            forall|j: int|
                0 <= j < names.len() ==> (backup_number_spec(db_name@, #[trigger] names[j]) matches Some(
                    k,
                ) ==> k <= max_backup_number_spec(db_name@, names)),
        decreases file_names@.len() - i,
    {
        assert(names.take(i + 1).drop_last() =~= names.take(i as int));
        assert(names[i as int] == file_names@[i as int]@);
        if let Some(number) = backup_number_from_file_name(db_name, file_names[i].as_str()) {
            if number > max_number {
                max_number = number;
            }
        }
        i = i + 1;
    }
    assert(names.take(file_names@.len() as int) =~= names);
    max_number + 1
}

/// Orders backups newest (highest number) first, keeping the listing order of
/// backups with the same number.
pub fn sort_backups_newest_first(backups: Vec<BackupInfo>) -> (r: Vec<BackupInfo>)
    ensures
        is_stable_sort_of(r@, backups@),
{
    stable_sort(backups)
}

/// The name of backup `number` reads back as `number`.
pub proof fn lemma_backup_file_name_roundtrip(db_name: Seq<char>, number: u32)
    ensures
        backup_number_spec(db_name, backup_file_name_spec(db_name, number)) == Some(number),
{
    let prefix = backup_prefix_spec(db_name);
    let name = backup_file_name_spec(db_name, number);
    assert(name.subrange(0, prefix.len() as int) =~= prefix);
    assert(name.skip(prefix.len() as int) =~= decimal_spec(number as nat));
    lemma_parse_u32_decimal(number);
}

/// A new backup gets a fresh name: no existing file name is the name of backup
/// `next_backup_number`, and every existing backup has a lower number.
pub proof fn lemma_next_backup_name_is_fresh(db_name: Seq<char>, file_names: Seq<Seq<char>>)
    requires
        backup_numbers_not_exhausted(db_name, file_names),
    ensures
        max_backup_number_spec(db_name, file_names) + 1 <= u32::MAX,
        forall|i: int|
            0 <= i < file_names.len() ==> #[trigger] file_names[i] != backup_file_name_spec(
                db_name,
                (max_backup_number_spec(db_name, file_names) + 1) as u32,
            ),
        forall|i: int|
            0 <= i < file_names.len() ==> (backup_number_spec(db_name, #[trigger] file_names[i])
                matches Some(k) ==> k < max_backup_number_spec(db_name, file_names) + 1),
{
    lemma_max_backup_number_bound(db_name, file_names);
    let next = (max_backup_number_spec(db_name, file_names) + 1) as u32;
    lemma_backup_file_name_roundtrip(db_name, next);
    assert forall|i: int| 0 <= i < file_names.len() implies #[trigger] file_names[i]
        != backup_file_name_spec(db_name, next) by {
        if file_names[i] == backup_file_name_spec(db_name, next) {
            assert(backup_number_spec(db_name, file_names[i]) == Some(next));
        }
    }
}

/// Backup `number` of a database is named `{db_name}.bak.{number}`, and a
/// database whose path has no UTF-8 file name is named `database.db`.
pub proof fn lemma_backup_name_shape(db_name: Seq<char>, number: u32)
    ensures
        backup_file_name_spec(db_name, number) == db_name + ".bak."@ + decimal_spec(number as nat),
        DEFAULT_DATABASE_NAME@ == "database.db"@,
{
    reveal_strlit(".bak.");
    reveal_strlit("database.db");
}

/// The highest backup number is 0 when no file name names a backup, and
/// otherwise the number of one of them, at least that of every other.
pub proof fn lemma_max_backup_number_is_a_backup(db_name: Seq<char>, file_names: Seq<Seq<char>>)
    ensures
        max_backup_number_spec(db_name, file_names) == 0 || exists|i: int|
            0 <= i < file_names.len() && backup_number_spec(db_name, #[trigger] file_names[i])
                == Some(max_backup_number_spec(db_name, file_names) as u32),
        forall|i: int|
            0 <= i < file_names.len() ==> (backup_number_spec(db_name, #[trigger] file_names[i])
                matches Some(k) ==> k <= max_backup_number_spec(db_name, file_names)),
    decreases file_names.len(),
{
    if file_names.len() > 0 {
        let q = file_names.drop_last();
        lemma_max_backup_number_is_a_backup(db_name, q);
        let m = max_backup_number_spec(db_name, file_names);
        if max_backup_number_spec(db_name, q) != 0 && m == max_backup_number_spec(db_name, q) {
            let i = choose|i: int|
                0 <= i < q.len() && backup_number_spec(db_name, #[trigger] q[i]) == Some(
                    max_backup_number_spec(db_name, q) as u32,
                );
            assert(file_names[i] == q[i]);
        }
        if m != max_backup_number_spec(db_name, q) {
            assert(backup_number_spec(db_name, file_names[file_names.len() - 1]) == Some(m as u32));
        }
        assert forall|i: int|
            0 <= i < file_names.len() implies (backup_number_spec(db_name, #[trigger] file_names[i])
                matches Some(k) ==> k <= m) by {
            if i < q.len() {
                assert(file_names[i] == q[i]);
            }
        }
    }
}

} // verus!
