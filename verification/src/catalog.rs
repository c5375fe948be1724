//! The migration catalog: the scripts of the migrations folder, read from
//! their file names, classified and put in order.

use crate::decimal::{all_digits, decimal_value, is_digit, parse_version};
use crate::error::{ErrorView, RollbackError};
use crate::migration::{migration_views, Migration, MigrationType, MigrationView};
use crate::text::{chars_of, ends_with, texts, SEPARATOR};
use vstd::prelude::*;
use vstd::string::{StrSliceExecFns, StringExecFns};

verus! {

/// The ending of a script of the given type.
pub open spec fn extension(kind: MigrationType) -> Seq<char> {
    match kind {
        MigrationType::Simple => ".sql"@,
        MigrationType::Up => ".up.sql"@,
        MigrationType::Down => ".down.sql"@,
    }
}

/// The type that a file name announces by its ending. The endings of the
/// two halves of a pair take precedence over the plain one, which they
/// end in too.
pub open spec fn script_type(file: Seq<char>) -> Option<MigrationType> {
    if extension(MigrationType::Down).is_suffix_of(file) {
        Some(MigrationType::Down)
    } else if extension(MigrationType::Up).is_suffix_of(file) {
        Some(MigrationType::Up)
    } else if extension(MigrationType::Simple).is_suffix_of(file) {
        Some(MigrationType::Simple)
    } else {
        None
    }
}

/// How many ASCII digits `s` begins with.
pub open spec fn leading_digits(s: Seq<char>) -> nat
    decreases s.len(),
{
    if s.len() > 0 && is_digit(s[0]) {
        1 + leading_digits(s.drop_first())
    } else {
        0
    }
}

/// The migration that a file name describes, if it describes one: the
/// name is what stands before the ending; it begins with the version, a
/// run of digits that fits the version type, followed by the separator;
/// what follows the separator is the description.
pub open spec fn parsed(file: Seq<char>) -> Option<MigrationView> {
    match script_type(file) {
        None => None,
        Some(kind) => {
            let name = file.take(file.len() - extension(kind).len());
            let k = leading_digits(name) as int;
            if 0 < k < name.len() && name[k] == SEPARATOR && decimal_value(name.take(k))
                <= i64::MAX {
                Some(
                    MigrationView {
                        version: decimal_value(name.take(k)) as int,
                        name,
                        description: name.skip(k + 1),
                        migration_type: kind,
                    },
                )
            } else {
                None
            }
        },
    }
}

/// A run of digits that ends at `k` is the whole run of leading digits.
proof fn lemma_leading_digits(s: Seq<char>, k: int)
    requires
        0 <= k <= s.len(),
        all_digits(s.take(k)),
        k < s.len() ==> !is_digit(s[k]),
    ensures
        leading_digits(s) == k,
    decreases k,
{
    if k > 0 {
        assert(s.take(k)[0] == s[0]);
        let rest = s.drop_first();
        assert forall|i: int| 0 <= i < k - 1 implies is_digit(#[trigger] rest.take(k - 1)[i]) by {
            assert(rest.take(k - 1)[i] == s.take(k)[i + 1]);
        }
        lemma_leading_digits(rest, k - 1);
    }
}

/// The type that a file name announces by its ending.
pub fn classify(file: &Vec<char>) -> (r: Option<MigrationType>)
    ensures
        r == script_type(file@),
{
    let down = chars_of(".down.sql");
    let up = chars_of(".up.sql");
    let simple = chars_of(".sql");
    if ends_with(file, &down) {
        Some(MigrationType::Down)
    } else if ends_with(file, &up) {
        Some(MigrationType::Up)
    } else if ends_with(file, &simple) {
        Some(MigrationType::Simple)
    } else {
        None
    }
}

/// The length of the ending of a script of the given type.
fn extension_len(kind: MigrationType) -> (n: usize)
    ensures
        n == extension(kind).len(),
{
    match kind {
        MigrationType::Simple => chars_of(".sql").len(),
        MigrationType::Up => chars_of(".up.sql").len(),
        MigrationType::Down => chars_of(".down.sql").len(),
    }
}

/// Reads a migration from the name of its script. A name that does not
/// follow the convention is reported, not passed over.
pub fn parse_file_name(file: &str) -> (r: Result<Migration, RollbackError>)
    ensures
        match r {
            Ok(migration) => parsed(file@) == Some(migration@),
            Err(e) => parsed(file@) is None && e@ == (ErrorView::MalformedFileName { file: file@ }),
        },
{
    let chars = chars_of(file);
    let kind = match classify(&chars) {
        Some(kind) => kind,
        None => {
            return Err(RollbackError::MalformedFileName { file: String::from_str(file) });
        },
    };
    let end: usize = chars.len() - extension_len(kind);
    let ghost name = file@.take(end as int);
    let mut digits: Vec<char> = Vec::new();
    let mut k: usize = 0;
    while k < end && '0' <= chars[k] && chars[k] <= '9'
        invariant
            k <= end <= chars.len(),
            chars@ == file@,
            name == file@.take(end as int),
            digits@ == name.take(k as int),
            all_digits(digits@),
        decreases end - k,
    {
        digits.push(chars[k]);
        assert(digits@ =~= name.take(k + 1));
        k += 1;
    }
    proof {
        lemma_leading_digits(name, k as int);
    }
    if k == 0 || k >= end || chars[k] != SEPARATOR {
        return Err(RollbackError::MalformedFileName { file: String::from_str(file) });
    }
    let version = match parse_version(&digits) {
        Some(version) => version,
        None => {
            return Err(RollbackError::MalformedFileName { file: String::from_str(file) });
        },
    };
    let name_text = String::from_str(file.substring_char(0, end));
    let description = String::from_str(file.substring_char(k + 1, end));
    assert(file@.subrange(0, end as int) =~= name);
    assert(file@.subrange(k + 1, end as int) =~= name.skip(k + 1));
    Ok(Migration { version, name: name_text, description, migration_type: kind })
}

/// The migrations that the file names describe, in the order of the
/// listing. It is meaningful where each name describes one.
pub open spec fn records(files: Seq<Seq<char>>) -> Seq<MigrationView> {
    files.map_values(|file: Seq<char>| parsed(file).unwrap())
}

/// Whether each file name describes a migration.
pub open spec fn all_parse(files: Seq<Seq<char>>) -> bool {
    forall|i: int| 0 <= i < files.len() ==> parsed(#[trigger] files[i]) is Some
}

/// The place of a type among the scripts of one version.
pub open spec fn rank(kind: MigrationType) -> int {
    match kind {
        MigrationType::Simple => 0,
        MigrationType::Up => 1,
        MigrationType::Down => 2,
    }
}

/// `a` stands before `b` in the catalog: by version, and within one
/// version the up-script before the down-script.
pub open spec fn precedes(a: MigrationView, b: MigrationView) -> bool {
    a.version < b.version || (a.version == b.version && rank(a.migration_type) < rank(
        b.migration_type,
    ))
}

/// Each record stands before all the records after it.
pub open spec fn ordered(list: Seq<MigrationView>) -> bool {
    forall|i: int, j: int| 0 <= i < j < list.len() ==> precedes(list[i], list[j])
}

/// `a` and `b` are the two halves of one reversible migration.
pub open spec fn is_pair(a: MigrationView, b: MigrationView) -> bool {
    &&& a.version == b.version
    &&& a.name == b.name
    &&& a.migration_type != MigrationType::Simple
    &&& b.migration_type != MigrationType::Simple
    &&& a.migration_type != b.migration_type
}

/// The records at `i` and `j` share a version without being a pair.
pub open spec fn clash(list: Seq<MigrationView>, i: int, j: int) -> bool {
    &&& 0 <= i < list.len()
    &&& 0 <= j < list.len()
    &&& i != j
    &&& list[i].version == list[j].version
    &&& !is_pair(list[i], list[j])
}

/// The record at `i` shares its version with a record that is not its
/// other half.
pub open spec fn conflict_at(list: Seq<MigrationView>, i: int) -> bool {
    exists|j: int| clash(list, i, j)
}

/// The record at `i` is one half of a pair whose other half is missing.
pub open spec fn unpaired_at(list: Seq<MigrationView>, i: int) -> bool {
    &&& 0 <= i < list.len()
    &&& list[i].migration_type != MigrationType::Simple
    &&& forall|j: int| 0 <= j < list.len() ==> !is_pair(list[i], #[trigger] list[j])
}

/// No version is shared but by the two halves of a pair.
pub open spec fn no_conflict(list: Seq<MigrationView>) -> bool {
    forall|i: int| !conflict_at(list, i)
}

/// Each half of a pair has its other half.
pub open spec fn all_paired(list: Seq<MigrationView>) -> bool {
    forall|i: int| !unpaired_at(list, i)
}

/// What makes a list of records a catalog.
pub open spec fn is_catalog(list: Seq<MigrationView>) -> bool {
    ordered(list) && no_conflict(list) && all_paired(list)
}

/// The two lists hold the same records.
pub open spec fn same_records(a: Seq<MigrationView>, b: Seq<MigrationView>) -> bool {
    &&& a.len() == b.len()
    &&& forall|i: int| 0 <= i < a.len() ==> b.contains(#[trigger] a[i])
    &&& forall|i: int| 0 <= i < b.len() ==> a.contains(#[trigger] b[i])
}

/// The place of a type among the scripts of one version.
fn rank_of(kind: MigrationType) -> (r: u8)
    ensures
        r == rank(kind),
{
    match kind {
        MigrationType::Simple => 0,
        MigrationType::Up => 1,
        MigrationType::Down => 2,
    }
}

/// Tests whether `a` stands before `b` in the catalog.
fn stands_before(a: &Migration, b: &Migration) -> (r: bool)
    ensures
        r == precedes(a@, b@),
{
    a.version < b.version || (a.version == b.version && rank_of(a.migration_type) < rank_of(
        b.migration_type,
    ))
}

/// Tests whether `a` and `b` are the two halves of one reversible migration.
fn halves_of_one(a: &Migration, b: &Migration) -> (r: bool)
    ensures
        r == is_pair(a@, b@),
{
    a.version == b.version && a.name == b.name && a.migration_type != MigrationType::Simple
        && b.migration_type != MigrationType::Simple && a.migration_type != b.migration_type
}

/// Reads a migration from each file name, stopping at the first name that
/// describes none.
fn parse_all(files: &Vec<String>) -> (r: Result<Vec<Migration>, RollbackError>)
    ensures
        match r {
            Ok(list) => all_parse(texts(files@)) && migration_views(list@) == records(
                texts(files@),
            ),
            Err(e) => exists|i: int|
                {
                    &&& 0 <= i < files.len()
                    &&& parsed(#[trigger] texts(files@)[i]) is None
                    &&& all_parse(texts(files@).take(i))
                    &&& e@ == (ErrorView::MalformedFileName { file: texts(files@)[i] })
                },
        },
{
    let ghost names = texts(files@);
    let mut list: Vec<Migration> = Vec::new();
    let mut i: usize = 0;
    while i < files.len()
        invariant
            i <= files.len(),
            names == texts(files@),
            all_parse(names.take(i as int)),
            migration_views(list@) == records(names.take(i as int)),
        decreases files.len() - i,
    {
        match parse_file_name(files[i].as_str()) {
            Ok(migration) => {
                let ghost before = migration_views(list@);
                list.push(migration);
                assert(migration_views(list@) =~= before.push(migration@));
                assert forall|k: int| 0 <= k < i + 1 implies migration_views(list@)[k] == records(
                    names.take(i + 1),
                )[k] by {
                    if k < i {
                        assert(before[k] == records(names.take(i as int))[k]);
                        assert(names.take(i as int)[k] == names.take(i + 1)[k]);
                    } else {
                        assert(names.take(i + 1)[k] == files@[i as int]@);
                    }
                }
                assert(migration_views(list@) =~= records(names.take(i + 1)));
                assert forall|k: int| 0 <= k < i + 1 implies parsed(
                    #[trigger] names.take(i + 1)[k],
                ) is Some by {
                    if k < i {
                        assert(names.take(i as int)[k] == names.take(i + 1)[k]);
                    }
                }
            },
            Err(e) => {
                assert(parsed(names[i as int]) is None);
                return Err(e);
            },
        }
        i += 1;
    }
    assert(names.take(i as int) =~= names);
    Ok(list)
}

/// Looks for the first record that shares its version with a record that
/// is not its other half.
fn find_conflict(list: &Vec<Migration>) -> (r: Option<usize>)
    ensures
        match r {
            None => no_conflict(migration_views(list@)),
            Some(i) => {
                &&& conflict_at(migration_views(list@), i as int)
                &&& forall|k: int| 0 <= k < i ==> !conflict_at(migration_views(list@), k)
            },
        },
{
    let ghost views = migration_views(list@);
    let mut i: usize = 0;
    while i < list.len()
        invariant
            i <= list.len(),
            views == migration_views(list@),
            forall|k: int| 0 <= k < i ==> !conflict_at(views, k),
        decreases list.len() - i,
    {
        let mut j: usize = 0;
        while j < list.len()
            invariant
                i < list.len(),
                j <= list.len(),
                views == migration_views(list@),
                forall|k: int| 0 <= k < i ==> !conflict_at(views, k),
                forall|k: int| 0 <= k < j ==> !clash(views, i as int, k),
            decreases list.len() - j,
        {
            if j != i && list[j].version == list[i].version && !halves_of_one(&list[i], &list[j]) {
                assert(clash(views, i as int, j as int));
                return Some(i);
            }
            j += 1;
        }
        i += 1;
    }
    assert forall|k: int| !conflict_at(views, k) by {
        if conflict_at(views, k) {
            let j = choose|j: int| clash(views, k, j);
            assert(0 <= k < list.len());
        }
    }
    None
}

/// Looks for the first half of a pair whose other half is missing.
fn find_unpaired(list: &Vec<Migration>) -> (r: Option<usize>)
    ensures
        match r {
            None => all_paired(migration_views(list@)),
            Some(i) => {
                &&& unpaired_at(migration_views(list@), i as int)
                &&& forall|k: int| 0 <= k < i ==> !unpaired_at(migration_views(list@), k)
            },
        },
{
    let ghost views = migration_views(list@);
    let mut i: usize = 0;
    while i < list.len()
        invariant
            i <= list.len(),
            views == migration_views(list@),
            forall|k: int| 0 <= k < i ==> !unpaired_at(views, k),
        decreases list.len() - i,
    {
        if list[i].migration_type != MigrationType::Simple {
            let mut found = false;
            let mut j: usize = 0;
            while j < list.len() && !found
                invariant
                    i < list.len(),
                    j <= list.len(),
                    views == migration_views(list@),
                    found ==> exists|k: int| 0 <= k < list.len() && is_pair(views[i as int], views[k]),
                    !found ==> forall|k: int| 0 <= k < j ==> !is_pair(views[i as int], #[trigger] views[k]),
                decreases list.len() - j,
            {
                if halves_of_one(&list[i], &list[j]) {
                    assert(is_pair(views[i as int], views[j as int]));
                    found = true;
                }
                j += 1;
            }
            if !found {
                return Some(i);
            }
        }
        i += 1;
    }
    None
}

/// Puts the records in catalog order.
fn sort_records(list: &Vec<Migration>) -> (sorted: Vec<Migration>)
    requires
        no_conflict(migration_views(list@)),
    ensures
        ordered(migration_views(sorted@)),
        same_records(migration_views(sorted@), migration_views(list@)),
{
    let ghost input = migration_views(list@);
    let mut sorted: Vec<Migration> = Vec::new();
    let mut i: usize = 0;
    while i < list.len()
        invariant
            i <= list.len(),
            input == migration_views(list@),
            no_conflict(input),
            ordered(migration_views(sorted@)),
            sorted@.len() == i,
            forall|k: int| 0 <= k < i ==> migration_views(sorted@).contains(#[trigger] input[k]),
            forall|m: int|
                0 <= m < i ==> input.take(i as int).contains(#[trigger] migration_views(sorted@)[m]),
        decreases list.len() - i,
    {
        let ghost before = migration_views(sorted@);
        let ghost x = input[i as int];
        let mut at: usize = 0;
        while at < sorted.len() && stands_before(&sorted[at], &list[i])
            invariant
                at <= sorted.len(),
                i < list.len(),
                input == migration_views(list@),
                x == input[i as int],
                before == migration_views(sorted@),
                forall|k: int| 0 <= k < at ==> precedes(#[trigger] before[k], x),
            decreases sorted.len() - at,
        {
            at += 1;
        }
        sorted.insert(at, list[i].duplicate());
        let ghost after = migration_views(sorted@);
        proof {
            assert(after =~= before.insert(at as int, x));
            assert forall|m: int| at <= m < before.len() implies precedes(x, #[trigger] before[m]) by {
                let k = choose|k: int| 0 <= k < i && input.take(i as int)[k] == before[m];
                assert(input[k] == before[m]);
                assert(!clash(input, i as int, k)) by {
                    assert(!conflict_at(input, i as int));
                }
                let head = choose|h: int| 0 <= h < i && input.take(i as int)[h] == before[at as int];
                assert(input[head] == before[at as int]);
                assert(!clash(input, i as int, head)) by {
                    assert(!conflict_at(input, i as int));
                }
                assert(!precedes(before[at as int], x));
                if m > at {
                    assert(precedes(before[at as int], before[m]));
                }
            }
            assert forall|a: int, b: int| 0 <= a < b < after.len() implies precedes(
                after[a],
                after[b],
            ) by {
                if b == at {
                    assert(after[a] == before[a]);
                } else if a == at {
                    assert(after[b] == before[b - 1]);
                } else {
                    let oa = if a < at { a } else { a - 1 };
                    let ob = if b < at { b } else { b - 1 };
                    assert(after[a] == before[oa]);
                    assert(after[b] == before[ob]);
                }
            }
            assert forall|k: int| 0 <= k < i + 1 implies after.contains(#[trigger] input[k]) by {
                if k == i {
                    assert(after[at as int] == x);
                } else {
                    let m = choose|m: int| 0 <= m < before.len() && before[m] == input[k];
                    let n = if m < at { m } else { m + 1 };
                    assert(after[n] == input[k]);
                }
            }
            assert forall|m: int| 0 <= m < i + 1 implies input.take(i + 1).contains(
                #[trigger] after[m],
            ) by {
                if m == at {
                    assert(input.take(i + 1)[i as int] == x);
                } else {
                    let o = if m < at { m } else { m - 1 };
                    assert(after[m] == before[o]);
                    let k = choose|k: int| 0 <= k < i && input.take(i as int)[k] == before[o];
                    assert(input.take(i + 1)[k] == after[m]);
                }
            }
        }
        i += 1;
    }
    proof {
        assert(input.take(i as int) =~= input);
    }
    sorted
}

/// A catalog keeps what holds of the records that it was sorted from.
proof fn lemma_sorted_is_catalog(sorted: Seq<MigrationView>, input: Seq<MigrationView>)
    requires
        ordered(sorted),
        same_records(sorted, input),
        no_conflict(input),
        all_paired(input),
    ensures
        is_catalog(sorted),
{
    assert forall|i: int| !conflict_at(sorted, i) by {
        if conflict_at(sorted, i) {
            let j = choose|j: int| clash(sorted, i, j);
            assert(input.contains(sorted[i]));
            assert(input.contains(sorted[j]));
            let a = choose|a: int| 0 <= a < input.len() && input[a] == sorted[i];
            let b = choose|b: int| 0 <= b < input.len() && input[b] == sorted[j];
            if i < j {
                assert(precedes(sorted[i], sorted[j]));
            } else {
                assert(precedes(sorted[j], sorted[i]));
            }
            assert(a != b);
            assert(clash(input, a, b));
            assert(conflict_at(input, a));
        }
    }
    assert forall|i: int| !unpaired_at(sorted, i) by {
        if unpaired_at(sorted, i) {
            assert(input.contains(sorted[i]));
            let a = choose|a: int| 0 <= a < input.len() && input[a] == sorted[i];
            assert(!unpaired_at(input, a));
            let b = choose|b: int| 0 <= b < input.len() && is_pair(input[a], #[trigger] input[b]);
            assert(sorted.contains(input[b]));
            let j = choose|j: int| 0 <= j < sorted.len() && sorted[j] == input[b];
            assert(is_pair(sorted[i], sorted[j]));
        }
    }
}

/// The most recent record of a list in catalog order that is no
/// up-script, if there is one.
pub open spec fn newest(list: Seq<MigrationView>) -> Option<MigrationView> {
    let kept = list.filter(|m: MigrationView| m.migration_type != MigrationType::Up);
    if kept.len() == 0 {
        None
    } else {
        Some(kept.last())
    }
}

/// The contents of a migration that may be absent.
pub open spec fn migration_option(m: Option<&Migration>) -> Option<MigrationView> {
    match m {
        Some(m) => Some(m@),
        None => None,
    }
}

/// The migrations of a folder in catalog order: by ascending version, the
/// up-script of a pair before its down-script.
#[derive(Debug)]
pub struct Catalog {
    migrations: Vec<Migration>,
}

impl View for Catalog {
    type V = Seq<MigrationView>;

    closed spec fn view(&self) -> Seq<MigrationView> {
        migration_views(self.migrations@)
    }
}

impl Catalog {
    /// The invariant of a catalog.
    pub open spec fn well_formed(&self) -> bool {
        is_catalog(self@)
    }

    /// Builds the catalog from the names of the files in the migrations
    /// folder. The first name that describes no migration is reported;
    /// failing that, the first migration that shares its version with
    /// another that is not its other half; failing that, the first half of
    /// a pair whose other half is missing.
    pub fn from_files(files: &Vec<String>) -> (r: Result<Catalog, RollbackError>)
        ensures
            match r {
                Ok(catalog) => {
                    &&& all_parse(texts(files@))
                    &&& no_conflict(records(texts(files@)))
                    &&& all_paired(records(texts(files@)))
                    &&& catalog.well_formed()
                    &&& same_records(catalog@, records(texts(files@)))
                },
                Err(e) => {
                    ||| exists|i: int|
                        {
                            &&& 0 <= i < files.len()
                            &&& parsed(#[trigger] texts(files@)[i]) is None
                            &&& all_parse(texts(files@).take(i))
                            &&& e@ == (ErrorView::MalformedFileName { file: texts(files@)[i] })
                        }
                    ||| exists|i: int|
                        {
                            &&& all_parse(texts(files@))
                            &&& #[trigger] conflict_at(records(texts(files@)), i)
                            &&& forall|k: int| 0 <= k < i ==> !conflict_at(records(texts(files@)), k)
                            &&& e@ == (ErrorView::DuplicateVersion {
                                version: records(texts(files@))[i].version,
                            })
                        }
                    ||| exists|i: int|
                        {
                            &&& all_parse(texts(files@))
                            &&& no_conflict(records(texts(files@)))
                            &&& #[trigger] unpaired_at(records(texts(files@)), i)
                            &&& forall|k: int| 0 <= k < i ==> !unpaired_at(records(texts(files@)), k)
                            &&& e@ == (ErrorView::MissingPair { name: records(texts(files@))[i].name })
                        }
                },
            },
    {
        let list = match parse_all(files) {
            Ok(list) => list,
            Err(e) => {
                return Err(e);
            },
        };
        let ghost input = migration_views(list@);
        if let Some(i) = find_conflict(&list) {
            assert(conflict_at(input, i as int));
            return Err(RollbackError::DuplicateVersion { version: list[i].version });
        }
        if let Some(i) = find_unpaired(&list) {
            assert(unpaired_at(input, i as int));
            return Err(RollbackError::MissingPair { name: list[i].name.clone() });
        }
        let migrations = sort_records(&list);
        proof {
            lemma_sorted_is_catalog(migration_views(migrations@), input);
        }
        Ok(Catalog { migrations })
    }

    /// The number of records.
    pub fn len(&self) -> (n: usize)
        ensures
            n == self@.len(),
    {
        self.migrations.len()
    }

    /// The records in catalog order.
    pub fn migrations(&self) -> (list: &Vec<Migration>)
        ensures
            migration_views(list@) == self@,
    {
        &self.migrations
    }

    /// The records of the given type, in catalog order.
    pub fn of_type(&self, kind: MigrationType) -> (list: Vec<Migration>)
        ensures
            migration_views(list@) == self@.filter(|m: MigrationView| m.migration_type == kind),
    {
        let ghost all = self@;
        let ghost wanted = |m: MigrationView| m.migration_type == kind;
        let mut list: Vec<Migration> = Vec::new();
        proof {
            reveal(Seq::filter);
            assert(all.take(0) =~= Seq::<MigrationView>::empty());
            assert(migration_views(list@) =~= all.take(0).filter(wanted));
        }
        let mut i: usize = 0;
        while i < self.migrations.len()
            invariant
                i <= self.migrations.len(),
                all == self@,
                wanted == |m: MigrationView| m.migration_type == kind,
                migration_views(list@) == all.take(i as int).filter(wanted),
            decreases self.migrations.len() - i,
        {
            proof {
                reveal(Seq::filter);
                assert(all.take(i + 1).drop_last() =~= all.take(i as int));
                assert(all.take(i + 1).last() == self.migrations@[i as int]@);
            }
            if self.migrations[i].migration_type == kind {
                let ghost before = migration_views(list@);
                list.push(self.migrations[i].duplicate());
                assert(migration_views(list@) =~= before.push(self.migrations@[i as int]@));
            }
            i += 1;
        }
        assert(all.take(i as int) =~= all);
        list
    }

    /// The most recent record that is no up-script, if there is one.
    pub fn latest(&self) -> (r: Option<&Migration>)
        ensures
            migration_option(r) == newest(self@),
    {
        let ghost all = self@;
        let mut latest: Option<&Migration> = None;
        proof {
            reveal(Seq::filter);
            assert(all.take(0) =~= Seq::<MigrationView>::empty());
        }
        let mut i: usize = 0;
        while i < self.migrations.len()
            invariant
                i <= self.migrations.len(),
                all == self@,
                migration_option(latest) == newest(all.take(i as int)),
            decreases self.migrations.len() - i,
        {
            proof {
                reveal(Seq::filter);
                assert(all.take(i + 1).drop_last() =~= all.take(i as int));
                assert(all.take(i + 1).last() == self.migrations@[i as int]@);
            }
            if self.migrations[i].migration_type != MigrationType::Up {
                latest = Some(&self.migrations[i]);
            }
            i += 1;
        }
        assert(all.take(i as int) =~= all);
        latest
    }
}

} // verus!
