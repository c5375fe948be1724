//! What holds of every rollback, proved from the definitions of the
//! planner and of the machine.

use crate::catalog::{is_catalog, is_pair, newest, precedes, unpaired_at};
use crate::decimal::decimal_text;
use crate::error::{ErrorKind, ErrorView};
use crate::ledger::{
    ascending, has_version, lemma_without_ascending, lemma_without_contains, without_version,
    LedgerRow,
};
use crate::migration::{MigrationType, MigrationView};
use crate::planner::{
    empty_database_target, match_at, restore_target, reversal_queue, row_matches, strategy_of,
    target_kind, Strategy, TargetKind,
};
use crate::rollback::{
    row_names, start, step, ActionView, DownView, EventView, Phase, RollbackView,
};
use crate::snapshot::{backup_names, is_backup_name, is_candidate, resolved_snapshot};
use crate::text::{all_numeric, has_separator, is_numeric_char, SEPARATOR};
use vstd::prelude::*;

verus! {

/// A target that holds the separator resolves exactly when a snapshot
/// bears it as its whole name, and then to that name. A name that merely
/// begins with the target, or holds it, is no match, and such a target is
/// never ambiguous.
pub proof fn law_exact_target(target: Seq<char>, names: Seq<Seq<char>>)
    requires
        has_separator(target),
    ensures
        resolved_snapshot(target, names) == if names.contains(target) {
            Ok::<Seq<char>, ErrorView>(target)
        } else {
            Err(ErrorView::SnapshotNotFound { target })
        },
{
    if names.contains(target) {
        assert(is_candidate(target, names, target));
    }
}

/// Of the entries of a folder only the snapshots are looked at. So a
/// target that holds the separator resolves in a folder exactly when the
/// folder lists it and it ends as a snapshot does: a target that leaves
/// the ending out names no snapshot.
pub proof fn law_exact_target_in_folder(target: Seq<char>, entries: Seq<Seq<char>>)
    requires
        has_separator(target),
    ensures
        resolved_snapshot(target, backup_names(entries)) == if entries.contains(target)
            && is_backup_name(target) {
            Ok::<Seq<char>, ErrorView>(target)
        } else {
            Err(ErrorView::SnapshotNotFound { target })
        },
{
    let kept = |name: Seq<char>| is_backup_name(name);
    let listed = backup_names(entries);
    if listed.contains(target) {
        entries.lemma_filter_contains_rev(kept, target);
        let i = choose|i: int| 0 <= i < listed.len() && listed[i] == target;
        entries.lemma_filter_pred(kept, i);
    }
    if entries.contains(target) && is_backup_name(target) {
        let i = choose|i: int| 0 <= i < entries.len() && entries[i] == target;
        entries.lemma_filter_contains(kept, i);
    }
    law_exact_target(target, listed);
}

/// The target that stands for the empty database holds the separator and
/// does not end as a snapshot does, so no folder holds a snapshot for it:
/// a rollback that falls back on it ends with a resolution error.
pub proof fn law_empty_database_target_names_no_snapshot(entries: Seq<Seq<char>>)
    ensures
        resolved_snapshot(empty_database_target(), backup_names(entries)) == Err::<
            Seq<char>,
            ErrorView,
        >(ErrorView::SnapshotNotFound { target: empty_database_target() }),
{
    let target = empty_database_target();
    reveal_strlit("0_empty");
    reveal_strlit(".sql.bak");
    assert(target[1] == SEPARATOR);
    assert(has_separator(target));
    assert(!is_backup_name(target));
    law_exact_target_in_folder(target, entries);
}

/// A target without the separator resolves only to a snapshot whose name
/// begins with the target and the separator, and only if all the
/// snapshots that begin so bear one name.
pub proof fn law_prefix_target(target: Seq<char>, names: Seq<Seq<char>>)
    requires
        !has_separator(target),
    ensures
        match resolved_snapshot(target, names) {
            Ok(name) => {
                &&& names.contains(name)
                &&& target.push(SEPARATOR).is_prefix_of(name)
                &&& forall|other: Seq<char>|
                    names.contains(other) && target.push(SEPARATOR).is_prefix_of(other) ==> other
                        == name
            },
            Err(error) => {
                &&& error.kind() == ErrorKind::Resolution
                &&& error is SnapshotNotFound <==> forall|other: Seq<char>|
                    names.contains(other) ==> !target.push(SEPARATOR).is_prefix_of(other)
            },
        },
{
    if exists|name: Seq<char>| is_candidate(target, names, name) {
        let found = choose|name: Seq<char>| is_candidate(target, names, name);
        if forall|name: Seq<char>| is_candidate(target, names, name) ==> name == found {
            assert forall|other: Seq<char>|
                names.contains(other) && target.push(SEPARATOR).is_prefix_of(
                    other,
                ) implies other == found by {
                assert(is_candidate(target, names, other));
            }
        }
    } else {
        assert forall|other: Seq<char>| names.contains(other) implies !target.push(
            SEPARATOR,
        ).is_prefix_of(other) by {
            assert(!is_candidate(target, names, other));
        }
    }
}

/// Whatever the target, a resolution that fails fails as a resolution
/// error: for want of a match, or for more than one.
pub proof fn law_resolution_errors(target: Seq<char>, names: Seq<Seq<char>>)
    ensures
        resolved_snapshot(target, names) matches Err(error) ==> error.kind()
            == ErrorKind::Resolution,
{
}

/// The exit status tells the class of a failure: two classes with one
/// status are one class.
pub proof fn law_status_tells_classes_apart(a: ErrorKind, b: ErrorKind)
    requires
        a.status() == b.status(),
    ensures
        a == b,
{
}

/// In a catalog the migration that decides the strategy is the last
/// record: it is no up-script, and no record has a greater version.
pub proof fn law_newest_is_most_recent(catalog: Seq<MigrationView>)
    requires
        is_catalog(catalog),
        catalog.len() > 0,
    ensures
        newest(catalog) == Some(catalog.last()),
        catalog.last().migration_type != MigrationType::Up,
        forall|i: int| 0 <= i < catalog.len() ==> catalog[i].version <= catalog.last().version,
{
    let end = catalog.len() - 1;
    if catalog[end].migration_type == MigrationType::Up {
        assert(!unpaired_at(catalog, end));
        let j = choose|j: int| 0 <= j < catalog.len() && is_pair(catalog[end], #[trigger] catalog[j]);
        assert(precedes(catalog[j], catalog[end]));
    }
    assert forall|i: int| 0 <= i < catalog.len() implies catalog[i].version
        <= catalog.last().version by {
        if i < end {
            assert(precedes(catalog[i], catalog[end]));
        }
    }
    reveal(Seq::filter);
}

/// The three readings of a target exclude each other, in whatever order
/// they are tried: the separator is no numeric character, so a target that
/// reads as a version holds none and cannot read as a name, and a
/// description is what is neither.
pub proof fn law_target_readings(target: Seq<char>)
    ensures
        all_numeric(target) ==> !has_separator(target),
        target_kind(target) == TargetKind::Version <==> all_numeric(target),
        target_kind(target) == TargetKind::Name <==> has_separator(target),
        target_kind(target) == TargetKind::Description <==> !all_numeric(target) && !has_separator(
            target,
        ),
{
    if all_numeric(target) && has_separator(target) {
        let i = choose|i: int| 0 <= i < target.len() && target[i] == SEPARATOR;
        assert(is_numeric_char(target[i]));
    }
}

/// A row is held against a target by one field only: the version in
/// decimal notation, the name, or the description, as the target reads.
pub proof fn law_target_names_one_field(target: Seq<char>, row: LedgerRow)
    ensures
        all_numeric(target) ==> row_matches(target, row) == (decimal_text(row.version) == target),
        has_separator(target) ==> row_matches(target, row) == (row.name == target),
        !all_numeric(target) && !has_separator(target) ==> row_matches(target, row) == (row.description
            == target),
{
    law_target_readings(target);
}

/// Without a target the snapshot strategy goes back one step: to the
/// second-oldest executed migration where there are two or more, to the
/// empty database where there is one. With none it has nothing to go back
/// to, which is a usage error.
pub proof fn law_default_restore_target(rows: Seq<LedgerRow>)
    ensures
        rows.len() >= 2 ==> restore_target(None, rows) == Ok::<Seq<char>, ErrorView>(rows[1].name),
        rows.len() == 1 ==> restore_target(None, rows) == Ok::<Seq<char>, ErrorView>(
            empty_database_target(),
        ),
        rows.len() == 0 ==> restore_target(None, rows) == Err::<Seq<char>, ErrorView>(
            ErrorView::NoTarget,
        ) && ErrorView::NoTarget.kind() == ErrorKind::Usage,
{
}

/// Without a target the reversible strategy queues exactly the most
/// recent executed migration, and a forced run starts by reversing it.
pub proof fn law_default_reversal(
    down: DownView,
    url: Seq<char>,
    ledger: Seq<LedgerRow>,
    catalog: Seq<MigrationView>,
)
    requires
        strategy_of(catalog) == Ok::<Strategy, ErrorView>(Strategy::Reversible),
        down.target is None,
        ledger.len() > 0,
    ensures
        reversal_queue(down.target, ledger) == Ok::<Seq<LedgerRow>, ErrorView>(
            seq![ledger.last()],
        ),
        down.force ==> start(down, url, ledger, catalog).0.queue == seq![ledger.last()],
        down.force ==> start(down, url, ledger, catalog).1 == (ActionView::Reverse {
            version: ledger.last().version,
            name: ledger.last().name,
        }),
        !down.force ==> start(down, url, ledger, catalog).1 == (ActionView::ReportReversals {
            names: seq![ledger.last().name],
        }),
{
    let queue = seq![ledger.last()];
    assert(queue[0] == ledger.last());
    assert(queue.map_values(|row: LedgerRow| row.name) =~= seq![ledger.last().name]);
}

/// The state that a rollback reaches from `state` through `events`, each
/// one answering the action before it.
pub open spec fn replay(state: RollbackView, events: Seq<EventView>) -> RollbackView
    decreases events.len(),
{
    if events.len() == 0 {
        state
    } else {
        step(replay(state, events.drop_last()), events.last()).0
    }
}

/// Every rollback begins well-formed.
pub proof fn law_start_well_formed(
    down: DownView,
    url: Seq<char>,
    ledger: Seq<LedgerRow>,
    catalog: Seq<MigrationView>,
)
    requires
        ascending(ledger),
    ensures
        start(down, url, ledger, catalog).0.well_formed(),
{
}

/// Every rollback stays well-formed, whatever event it is given.
pub proof fn law_step_well_formed(state: RollbackView, event: EventView)
    requires
        state.well_formed(),
    ensures
        step(state, event).0.well_formed(),
{
    if state.phase == Phase::Reversing {
        lemma_without_ascending(state.ledger, state.queue[state.done as int].version);
    }
}

/// A dry run changes nothing: whatever event it is given, the next action
/// is none of those that touch the database, and the ledger stands as it
/// was.
pub proof fn law_dry_run_step(state: RollbackView, event: EventView)
    requires
        state.well_formed(),
        !state.force,
    ensures
        !step(state, event).1.mutates(),
        step(state, event).0.ledger == state.ledger,
        !step(state, event).0.force,
{
}

/// However long a dry run is driven, and with whatever events, it never
/// hands out an action that touches the database, and its ledger stands
/// as it was read.
pub proof fn law_dry_run_never_mutates(
    down: DownView,
    url: Seq<char>,
    ledger: Seq<LedgerRow>,
    catalog: Seq<MigrationView>,
    events: Seq<EventView>,
    event: EventView,
)
    requires
        ascending(ledger),
        !down.force,
    ensures
        !start(down, url, ledger, catalog).1.mutates(),
        start(down, url, ledger, catalog).0.ledger == ledger,
        replay(start(down, url, ledger, catalog).0, events).ledger == ledger,
        !step(replay(start(down, url, ledger, catalog).0, events), event).1.mutates(),
{
    let first = start(down, url, ledger, catalog).0;
    lemma_dry_run_replay(first, events);
    law_dry_run_step(replay(first, events), event);
}

/// A dry run stays a dry run with the ledger that it began with.
proof fn lemma_dry_run_replay(state: RollbackView, events: Seq<EventView>)
    requires
        state.well_formed(),
        !state.force,
    ensures
        replay(state, events).well_formed(),
        !replay(state, events).force,
        replay(state, events).ledger == state.ledger,
    decreases events.len(),
{
    if events.len() > 0 {
        lemma_dry_run_replay(state, events.drop_last());
        law_step_well_formed(replay(state, events.drop_last()), events.last());
        law_dry_run_step(replay(state, events.drop_last()), events.last());
    }
}

/// With an empty ledger there is nothing to roll back, and the rollback
/// ends at once with a usage error, whether it is forced or not. The one
/// exception is the snapshot strategy with a target of its own, which
/// does not go by the ledger.
pub proof fn law_empty_ledger_is_usage_error(
    down: DownView,
    url: Seq<char>,
    catalog: Seq<MigrationView>,
)
    requires
        !(strategy_of(catalog) == Ok::<Strategy, ErrorView>(Strategy::Snapshot)
            && down.target is Some),
    ensures
        start(down, url, Seq::empty(), catalog).1 matches ActionView::Fail { error }
            && error.kind() == ErrorKind::Usage,
{
}

/// A dry run of the reversible strategy reports the very migrations that
/// the forced run reverses, in the same order.
pub proof fn law_dry_run_reports_the_plan(
    down: DownView,
    url: Seq<char>,
    ledger: Seq<LedgerRow>,
    catalog: Seq<MigrationView>,
)
    requires
        strategy_of(catalog) == Ok::<Strategy, ErrorView>(Strategy::Reversible),
        reversal_queue(down.target, ledger) matches Ok(queue) && queue.len() > 0,
    ensures
        ({
            let dry = start(DownView { force: false, ..down }, url, ledger, catalog);
            let forced = start(DownView { force: true, ..down }, url, ledger, catalog);
            &&& forced.0.phase == Phase::Reversing
            &&& forced.0.queue == reversal_queue(down.target, ledger)->Ok_0
            &&& dry.1 == (ActionView::ReportReversals { names: row_names(forced.0.queue) })
        }),
{
}

/// The reversible strategy reverses rows of the ledger, and in strict
/// reverse order: each row of its queue is newer than all the rows after
/// it.
pub proof fn law_queue_newest_first(target: Option<Seq<char>>, ledger: Seq<LedgerRow>)
    requires
        ascending(ledger),
    ensures
        reversal_queue(target, ledger) matches Ok(queue) ==> {
            &&& forall|i: int| 0 <= i < queue.len() ==> ledger.contains(#[trigger] queue[i])
            &&& forall|i: int, j: int|
                0 <= i < j < queue.len() ==> queue[i].version > queue[j].version
        },
{
    if let Ok(queue) = reversal_queue(target, ledger) {
        match target {
            None => {
                assert(queue[0] == ledger[ledger.len() - 1]);
            },
            Some(target) => {
                let at = choose|i: int| match_at(target, ledger, i);
                let tail = ledger.skip(at + 1);
                assert forall|i: int| 0 <= i < queue.len() implies ledger.contains(
                    #[trigger] queue[i],
                ) by {
                    assert(queue[i] == tail[tail.len() - 1 - i]);
                    assert(tail[tail.len() - 1 - i] == ledger[at + 1 + (tail.len() - 1 - i)]);
                }
                assert forall|i: int, j: int| 0 <= i < j < queue.len() implies queue[i].version
                    > queue[j].version by {
                    assert(queue[i] == ledger[at + 1 + (tail.len() - 1 - i)]);
                    assert(queue[j] == ledger[at + 1 + (tail.len() - 1 - j)]);
                }
            },
        }
    }
}

/// The events of `count` actions that succeeded one after the other.
pub open spec fn successes(count: nat) -> Seq<EventView> {
    Seq::new(count, |i: int| EventView::Succeeded)
}

/// While reversals succeed the rollback goes down its queue, and each one
/// takes its row, and no other, out of the ledger.
pub proof fn law_reversal_progress(state: RollbackView, count: nat)
    requires
        state.well_formed(),
        state.phase == Phase::Reversing,
        state.done + count < state.queue.len(),
    ensures
        ({
            let reached = replay(state, successes(count));
            &&& reached.well_formed()
            &&& reached.phase == Phase::Reversing
            &&& reached.force == state.force
            &&& reached.queue == state.queue
            &&& reached.done == state.done + count
            &&& forall|row: LedgerRow|
                reached.ledger.contains(row) <==> state.ledger.contains(row) && forall|i: int|
                    state.done <= i < state.done + count ==> #[trigger] state.queue[i].version
                        != row.version
        }),
    decreases count,
{
    if count > 0 {
        let before = replay(state, successes((count - 1) as nat));
        law_reversal_progress(state, (count - 1) as nat);
        assert(successes(count).drop_last() =~= successes((count - 1) as nat));
        let reached = replay(state, successes(count));
        assert(reached == step(before, EventView::Succeeded).0);
        let version = state.queue[state.done + count - 1].version;
        assert(reached.ledger == without_version(before.ledger, version));
        lemma_without_ascending(before.ledger, version);
        assert forall|row: LedgerRow|
            reached.ledger.contains(row) <==> state.ledger.contains(row) && forall|i: int|
                state.done <= i < state.done + count ==> #[trigger] state.queue[i].version
                    != row.version by {
            lemma_without_contains(before.ledger, version, row);
            if state.ledger.contains(row) && (forall|i: int|
                state.done <= i < state.done + count ==> #[trigger] state.queue[i].version
                    != row.version) {
                assert(state.queue[state.done + count - 1].version != row.version);
            }
        }
    }
}

/// What a forced reversible rollback leaves behind when it fails. If the
/// first `count` reversals succeed and the next one fails, the failure
/// names that step and its migration; the rows of the `count` reversed
/// migrations are gone from the ledger; and every other row is still
/// there, that of the failed migration and those of the migrations queued
/// after it among them.
pub proof fn law_partial_failure(
    down: DownView,
    url: Seq<char>,
    ledger: Seq<LedgerRow>,
    catalog: Seq<MigrationView>,
    count: nat,
)
    requires
        ascending(ledger),
        down.force,
        strategy_of(catalog) == Ok::<Strategy, ErrorView>(Strategy::Reversible),
        reversal_queue(down.target, ledger) matches Ok(queue) && count < queue.len(),
    ensures
        ({
            let queue = reversal_queue(down.target, ledger)->Ok_0;
            let reached = replay(start(down, url, ledger, catalog).0, successes(count));
            let (end, action) = step(reached, EventView::Failed);
            &&& action == (ActionView::Fail {
                error: ErrorView::ReversalFailed { step: count, name: queue[count as int].name },
            })
            &&& end.phase == Phase::Finished
            &&& forall|i: int| 0 <= i < count ==> !has_version(end.ledger, #[trigger] queue[i].version)
            &&& forall|i: int| count <= i < queue.len() ==> end.ledger.contains(#[trigger] queue[i])
            &&& forall|row: LedgerRow|
                end.ledger.contains(row) <==> ledger.contains(row) && forall|i: int|
                    0 <= i < count ==> #[trigger] queue[i].version != row.version
        }),
{
    let queue = reversal_queue(down.target, ledger)->Ok_0;
    let first = start(down, url, ledger, catalog).0;
    law_queue_newest_first(down.target, ledger);
    law_reversal_progress(first, count);
    let reached = replay(first, successes(count));
    let end = step(reached, EventView::Failed).0;
    assert(end.ledger == reached.ledger);
    assert forall|i: int| 0 <= i < count implies !has_version(
        end.ledger,
        #[trigger] queue[i].version,
    ) by {
        if has_version(end.ledger, queue[i].version) {
            let k = choose|k: int|
                0 <= k < end.ledger.len() && #[trigger] end.ledger[k].version == queue[i].version;
            assert(end.ledger.contains(end.ledger[k]));
        }
    }
    assert forall|i: int| count <= i < queue.len() implies end.ledger.contains(
        #[trigger] queue[i],
    ) by {
        assert(ledger.contains(queue[i]));
        assert forall|j: int| 0 <= j < count implies #[trigger] queue[j].version
            != queue[i].version by {
            assert(queue[j].version > queue[i].version);
        }
    }
}

/// What a forced reversible rollback leaves behind when every reversal
/// succeeds: the last success completes it, the rows of the queued
/// migrations are gone from the ledger, and every other row is still
/// there.
pub proof fn law_complete_reversal(
    down: DownView,
    url: Seq<char>,
    ledger: Seq<LedgerRow>,
    catalog: Seq<MigrationView>,
)
    requires
        ascending(ledger),
        down.force,
        strategy_of(catalog) == Ok::<Strategy, ErrorView>(Strategy::Reversible),
        reversal_queue(down.target, ledger) matches Ok(queue) && queue.len() > 0,
    ensures
        ({
            let queue = reversal_queue(down.target, ledger)->Ok_0;
            let first = start(down, url, ledger, catalog).0;
            let last = replay(first, successes((queue.len() - 1) as nat));
            let end = replay(first, successes(queue.len()));
            &&& step(last, EventView::Succeeded) == (end, ActionView::Finish)
            &&& end.phase == Phase::Finished
            &&& end.done == queue.len()
            &&& forall|row: LedgerRow|
                end.ledger.contains(row) <==> ledger.contains(row) && forall|i: int|
                    0 <= i < queue.len() ==> #[trigger] queue[i].version != row.version
        }),
{
    let queue = reversal_queue(down.target, ledger)->Ok_0;
    let first = start(down, url, ledger, catalog).0;
    let count = (queue.len() - 1) as nat;
    law_reversal_progress(first, count);
    let last = replay(first, successes(count));
    let end = replay(first, successes(queue.len()));
    assert(successes(queue.len()).drop_last() =~= successes(count));
    let version = queue[count as int].version;
    assert(end.ledger == without_version(last.ledger, version));
    assert forall|row: LedgerRow|
        end.ledger.contains(row) <==> ledger.contains(row) && forall|i: int|
            0 <= i < queue.len() ==> #[trigger] queue[i].version != row.version by {
        lemma_without_contains(last.ledger, version, row);
        if ledger.contains(row) && (forall|i: int|
            0 <= i < queue.len() ==> #[trigger] queue[i].version != row.version) {
            assert(queue[count as int].version != row.version);
        }
    }
}

} // verus!
