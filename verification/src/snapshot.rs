//! The snapshot store: which backup files a folder holds, and which of
//! them a target names.

use crate::error::{ErrorView, RollbackError};
use crate::lexical::{
    lemma_bytes_le_total, lemma_bytes_le_transitive, name_le, sorted_names, sorts_before,
};
use crate::text::{
    chars_of, contains_separator, ends_with, has_separator, same_text, starts_with, texts,
    SEPARATOR,
};
use vstd::prelude::*;
use vstd::seq_lib::{to_multiset_build, to_multiset_insert};
use vstd::string::StringExecFns;
use vstd::utf8::encode_utf8;

verus! {

/// The ending that marks a file as a snapshot.
pub open spec fn backup_suffix() -> Seq<char> {
    ".sql.bak"@
}

/// Whether a file of this name is a snapshot.
pub open spec fn is_backup_name(name: Seq<char>) -> bool {
    backup_suffix().is_suffix_of(name)
}

/// The snapshots among the entries of a folder, in the order of the listing.
pub open spec fn backup_names(entries: Seq<Seq<char>>) -> Seq<Seq<char>> {
    entries.filter(|name: Seq<char>| is_backup_name(name))
}

/// The target resolution rule. A target that holds the separator names a
/// snapshot in full: the name of the file, whole, and nothing else. Any
/// other target names the snapshot whose name begins with the target
/// followed by the separator.
pub open spec fn snapshot_matches(target: Seq<char>, backup: Seq<char>) -> bool {
    if has_separator(target) {
        backup == target
    } else {
        target.push(SEPARATOR).is_prefix_of(backup)
    }
}

/// `name` is among `names` and the target matches it.
pub open spec fn is_candidate(target: Seq<char>, names: Seq<Seq<char>>, name: Seq<char>) -> bool {
    names.contains(name) && snapshot_matches(target, name)
}

/// The snapshot that `target` names among `names`: the one name that the
/// target matches. With no such name, or with two different ones, there is
/// none.
pub open spec fn resolved_snapshot(target: Seq<char>, names: Seq<Seq<char>>) -> Result<
    Seq<char>,
    ErrorView,
> {
    if !(exists|name: Seq<char>| is_candidate(target, names, name)) {
        Err(ErrorView::SnapshotNotFound { target })
    } else {
        let found = choose|name: Seq<char>| is_candidate(target, names, name);
        if forall|name: Seq<char>| is_candidate(target, names, name) ==> name == found {
            Ok(found)
        } else {
            Err(ErrorView::SnapshotAmbiguous { target })
        }
    }
}

/// The contents of a name or the failure in its place.
pub open spec fn name_result(r: Result<String, RollbackError>) -> Result<Seq<char>, ErrorView> {
    match r {
        Ok(name) => Ok(name@),
        Err(e) => Err(e@),
    }
}

/// Where the target matches nothing, no snapshot is found.
pub proof fn lemma_resolved_none(target: Seq<char>, names: Seq<Seq<char>>)
    requires
        forall|k: int| 0 <= k < names.len() ==> !snapshot_matches(target, #[trigger] names[k]),
    ensures
        resolved_snapshot(target, names) == Err::<Seq<char>, ErrorView>(
            ErrorView::SnapshotNotFound { target },
        ),
{
    assert forall|name: Seq<char>| !is_candidate(target, names, name) by {
        if names.contains(name) {
            let k = choose|k: int| 0 <= k < names.len() && names[k] == name;
            assert(!snapshot_matches(target, names[k]));
        }
    }
}

/// Where every name that the target matches equals the one at `at`, that
/// one is the snapshot.
pub proof fn lemma_resolved_one(target: Seq<char>, names: Seq<Seq<char>>, at: int)
    requires
        0 <= at < names.len(),
        snapshot_matches(target, names[at]),
        forall|k: int|
            0 <= k < names.len() && snapshot_matches(target, #[trigger] names[k]) ==> names[k]
                == names[at],
    ensures
        resolved_snapshot(target, names) == Ok::<Seq<char>, ErrorView>(names[at]),
{
    assert(is_candidate(target, names, names[at]));
    assert forall|name: Seq<char>| is_candidate(target, names, name) implies name == names[at] by {
        let k = choose|k: int| 0 <= k < names.len() && names[k] == name;
        assert(snapshot_matches(target, names[k]));
    }
}

/// Where the target matches two different names, the target is ambiguous.
pub proof fn lemma_resolved_several(target: Seq<char>, names: Seq<Seq<char>>, a: int, b: int)
    requires
        0 <= a < names.len(),
        0 <= b < names.len(),
        snapshot_matches(target, names[a]),
        snapshot_matches(target, names[b]),
        names[a] != names[b],
    ensures
        resolved_snapshot(target, names) == Err::<Seq<char>, ErrorView>(
            ErrorView::SnapshotAmbiguous { target },
        ),
{
    assert(is_candidate(target, names, names[a]));
    assert(is_candidate(target, names, names[b]));
}

/// The order of the listing, and how often a name occurs in it, make no
/// difference to what a target resolves to.
pub proof fn lemma_resolution_ignores_order(
    target: Seq<char>,
    first: Seq<Seq<char>>,
    second: Seq<Seq<char>>,
)
    requires
        forall|name: Seq<char>| first.contains(name) <==> second.contains(name),
    ensures
        resolved_snapshot(target, first) == resolved_snapshot(target, second),
{
    assert forall|name: Seq<char>| is_candidate(target, first, name) == is_candidate(
        target,
        second,
        name,
    ) by {}
    if exists|name: Seq<char>| is_candidate(target, first, name) {
        let x = choose|name: Seq<char>| is_candidate(target, first, name);
        assert(is_candidate(target, second, x));
        let y = choose|name: Seq<char>| is_candidate(target, second, name);
        assert(is_candidate(target, first, y));
        if forall|name: Seq<char>| is_candidate(target, first, name) ==> name == x {
            assert(y == x);
        } else {
            let z = choose|name: Seq<char>| is_candidate(target, first, name) && name != x;
            assert(is_candidate(target, second, z));
            if z == y {
                assert(is_candidate(target, second, x) && x != y);
            }
        }
    } else {
        assert forall|name: Seq<char>| !is_candidate(target, second, name) by {
            assert(!is_candidate(target, first, name));
        }
    }
}

/// Puts `name` into the sorted list at the place where it belongs.
fn insert_sorted(list: &mut Vec<String>, name: String)
    requires
        sorted_names(texts(old(list)@)),
    ensures
        sorted_names(texts(final(list)@)),
        texts(final(list)@).to_multiset() == texts(old(list)@).to_multiset().insert(name@),
{
    let ghost before = texts(list@);
    let mut at: usize = 0;
    while at < list.len() && sorts_before(list[at].as_str(), name.as_str())
        invariant
            at <= list.len(),
            texts(list@) == before,
            forall|k: int| 0 <= k < at ==> name_le(#[trigger] before[k], name@),
        decreases list.len() - at,
    {
        at += 1;
    }
    list.insert(at, name);
    let ghost after = texts(list@);
    proof {
        assert(after =~= before.insert(at as int, name@));
        to_multiset_insert(before, at as int, name@);
        assert forall|i: int, j: int| 0 <= i < j < after.len() implies name_le(
            after[i],
            after[j],
        ) by {
            if j == at {
                assert(after[i] == before[i]);
            } else if i == at {
                assert(after[j] == before[j - 1]);
                assert(!name_le(before[at as int], name@));
                lemma_bytes_le_total(encode_utf8(before[at as int]), encode_utf8(name@));
                if j - 1 > at {
                    assert(name_le(before[at as int], before[j - 1]));
                    lemma_bytes_le_transitive(
                        encode_utf8(name@),
                        encode_utf8(before[at as int]),
                        encode_utf8(before[j - 1]),
                    );
                }
            } else {
                let oi = if i < at { i } else { i - 1 };
                let oj = if j < at { j } else { j - 1 };
                assert(after[i] == before[oi]);
                assert(after[j] == before[oj]);
            }
        }
    }
}

/// Tests whether a file of this name is a snapshot.
pub fn has_backup_suffix(name: &str) -> (r: bool)
    ensures
        r == is_backup_name(name@),
{
    let suffix = chars_of(".sql.bak");
    let chars = chars_of(name);
    ends_with(&chars, &suffix)
}

/// Lists the snapshots among the entries of the backup folder, sorted by
/// name. Entries without the snapshot ending are left out; a name that the
/// listing holds twice is kept twice.
pub fn get_backups(entries: &Vec<String>) -> (backups: Vec<String>)
    ensures
        sorted_names(texts(backups@)),
        texts(backups@).to_multiset() == backup_names(texts(entries@)).to_multiset(),
{
    let mut backups: Vec<String> = Vec::new();
    let ghost names = texts(entries@);
    assert(names.take(0) =~= Seq::<Seq<char>>::empty());
    assert(texts(backups@) =~= Seq::<Seq<char>>::empty());
    assert(backup_names(names.take(0)) =~= Seq::<Seq<char>>::empty()) by {
        reveal(Seq::filter);
    }
    let mut i: usize = 0;
    while i < entries.len()
        invariant
            i <= entries.len(),
            names == texts(entries@),
            sorted_names(texts(backups@)),
            texts(backups@).to_multiset() == backup_names(names.take(i as int)).to_multiset(),
        decreases entries.len() - i,
    {
        proof {
            reveal(Seq::filter);
            assert(names.take(i + 1).drop_last() =~= names.take(i as int));
            assert(names.take(i + 1).last() == entries@[i as int]@);
        }
        if has_backup_suffix(entries[i].as_str()) {
            proof {
                to_multiset_build(backup_names(names.take(i as int)), entries@[i as int]@);
            }
            insert_sorted(&mut backups, entries[i].clone());
        }
        i += 1;
    }
    assert(names.take(i as int) =~= names);
    backups
}

/// Resolves `target` against the names of the snapshots by the target
/// resolution rule.
pub fn resolve_backup(backups: &Vec<String>, target: &str) -> (r: Result<String, RollbackError>)
    ensures
        name_result(r) == resolved_snapshot(target@, texts(backups@)),
{
    let ghost names = texts(backups@);
    let wanted = chars_of(target);
    let exact = contains_separator(&wanted);
    let mut prefix = chars_of(target);
    prefix.push(SEPARATOR);
    let mut found: Option<usize> = None;
    let mut i: usize = 0;
    while i < backups.len()
        invariant
            i <= backups.len(),
            names == texts(backups@),
            wanted@ == target@,
            exact == has_separator(target@),
            prefix@ == target@.push(SEPARATOR),
            found is None ==> forall|k: int|
                0 <= k < i ==> !snapshot_matches(target@, #[trigger] names[k]),
            found matches Some(f) ==> {
                &&& f < i
                &&& snapshot_matches(target@, names[f as int])
                &&& forall|k: int|
                    0 <= k < i && snapshot_matches(target@, #[trigger] names[k]) ==> names[k]
                        == names[f as int]
            },
        decreases backups.len() - i,
    {
        let chars = chars_of(backups[i].as_str());
        let matches = if exact {
            same_text(&chars, &wanted)
        } else {
            starts_with(&chars, &prefix)
        };
        assert(matches == snapshot_matches(target@, names[i as int]));
        if matches {
            match found {
                None => {
                    found = Some(i);
                },
                Some(f) => {
                    let other = chars_of(backups[f].as_str());
                    if !same_text(&chars, &other) {
                        proof {
                            lemma_resolved_several(target@, names, f as int, i as int);
                        }
                        return Err(
                            RollbackError::SnapshotAmbiguous { target: String::from_str(target) },
                        );
                    }
                },
            }
        }
        i += 1;
    }
    match found {
        None => {
            proof {
                lemma_resolved_none(target@, names);
            }
            Err(RollbackError::SnapshotNotFound { target: String::from_str(target) })
        },
        Some(f) => {
            proof {
                lemma_resolved_one(target@, names, f as int);
            }
            Ok(backups[f].clone())
        },
    }
}

} // verus!
