//! The rollback planner: which strategy governs a rollback, which snapshot
//! it aims at, and which migrations it reverses, in what order.

use crate::catalog::{newest, Catalog};
use crate::decimal::{decimal_text, version_text};
use crate::error::{ErrorView, RollbackError};
use crate::ledger::{row_views, ExecutedMigration, Ledger, LedgerRow};
use crate::migration::{MigrationType, MigrationView};
use crate::snapshot::name_result;
use crate::text::{
    all_numeric, chars_of, contains_separator, has_separator, is_all_numeric, same_text,
};
use vstd::prelude::*;
use vstd::string::StringExecFns;

verus! {

/// The two ways of rolling back. The type of the most recent migration of
/// the catalog decides between them for the whole rollback.
#[derive(Clone, Copy, Debug, PartialEq, Eq, Structural)]
pub enum Strategy {
    /// Reset the schema and restore a snapshot.
    Snapshot,
    /// Run the down-scripts of the executed migrations, newest first.
    Reversible,
}

/// The field of a ledger row that a target is held against.
#[derive(Clone, Copy, Debug, PartialEq, Eq, Structural)]
pub enum TargetKind {
    Version,
    Name,
    Description,
}

/// The strategy that a catalog calls for: the snapshot strategy where its
/// most recent migration is a simple one, the reversible strategy where it
/// is one of a pair. An empty catalog calls for none.
pub open spec fn strategy_of(catalog: Seq<MigrationView>) -> Result<Strategy, ErrorView> {
    match newest(catalog) {
        None => Err(ErrorView::NoMigrations),
        Some(m) => if m.migration_type == MigrationType::Simple {
            Ok(Strategy::Snapshot)
        } else {
            Ok(Strategy::Reversible)
        },
    }
}

/// The target that stands for the database before any migration.
pub open spec fn empty_database_target() -> Seq<char> {
    "0_empty"@
}

/// The contents of a text that may be absent.
pub open spec fn option_text(text: Option<String>) -> Option<Seq<char>> {
    match text {
        Some(text) => Some(text@),
        None => None,
    }
}

/// The name that the snapshot strategy looks for: the target where one is
/// given; else the name of the second-oldest executed migration; else,
/// with a single executed migration, the empty database. With none, there
/// is nothing to roll back to.
pub open spec fn restore_target(target: Option<Seq<char>>, rows: Seq<LedgerRow>) -> Result<
    Seq<char>,
    ErrorView,
> {
    match target {
        Some(target) => Ok(target),
        None => if rows.len() > 1 {
            Ok(rows[1].name)
        } else if rows.len() == 1 {
            Ok(empty_database_target())
        } else {
            Err(ErrorView::NoTarget)
        },
    }
}

/// How the reversible strategy reads a target: made of numeric characters
/// only, it is a version; else, holding the separator, a name; else a
/// description.
pub open spec fn target_kind(target: Seq<char>) -> TargetKind {
    if all_numeric(target) {
        TargetKind::Version
    } else if has_separator(target) {
        TargetKind::Name
    } else {
        TargetKind::Description
    }
}

/// Whether the target names this row.
pub open spec fn row_matches(target: Seq<char>, row: LedgerRow) -> bool {
    match target_kind(target) {
        TargetKind::Version => decimal_text(row.version) == target,
        TargetKind::Name => row.name == target,
        TargetKind::Description => row.description == target,
    }
}

/// The target names the row at `i`.
pub open spec fn match_at(target: Seq<char>, rows: Seq<LedgerRow>, i: int) -> bool {
    0 <= i < rows.len() && row_matches(target, rows[i])
}

/// The rows that the reversible strategy reverses, in the order in which
/// it reverses them: without a target the most recent row alone; with a
/// target every row after the one row that it names, newest first. An
/// empty ledger leaves nothing to roll back; a target that names no row,
/// or more than one, is not resolved.
pub open spec fn reversal_queue(target: Option<Seq<char>>, rows: Seq<LedgerRow>) -> Result<
    Seq<LedgerRow>,
    ErrorView,
> {
    if rows.len() == 0 {
        Err(ErrorView::NothingToRollBack)
    } else {
        match target {
            None => Ok(seq![rows.last()]),
            Some(target) => if !(exists|i: int| match_at(target, rows, i)) {
                Err(ErrorView::MigrationNotFound { target })
            } else {
                let at = choose|i: int| match_at(target, rows, i);
                if forall|i: int| match_at(target, rows, i) ==> i == at {
                    Ok(rows.skip(at + 1).reverse())
                } else {
                    Err(ErrorView::MigrationAmbiguous { target })
                }
            },
        }
    }
}

/// What a rollback sets out to do.
#[derive(Clone, Debug, PartialEq, Eq)]
pub enum Plan {
    /// Reset the schema and restore the snapshot that `target` names.
    Restore { target: String },
    /// Reverse the migrations of `queue`, in that order.
    Reverse { queue: Vec<ExecutedMigration> },
}

/// The mathematical content of a [`Plan`].
pub enum PlanView {
    Restore { target: Seq<char> },
    Reverse { queue: Seq<LedgerRow> },
}

impl View for Plan {
    type V = PlanView;

    open spec fn view(&self) -> PlanView {
        match *self {
            Plan::Restore { target } => PlanView::Restore { target: target@ },
            Plan::Reverse { queue } => PlanView::Reverse { queue: row_views(queue@) },
        }
    }
}

/// The plan for a rollback: the catalog decides the strategy, and the
/// strategy settles its target or its queue from the ledger.
pub open spec fn plan_of(
    target: Option<Seq<char>>,
    ledger: Seq<LedgerRow>,
    catalog: Seq<MigrationView>,
) -> Result<PlanView, ErrorView> {
    match strategy_of(catalog) {
        Err(error) => Err(error),
        Ok(Strategy::Snapshot) => match restore_target(target, ledger) {
            Err(error) => Err(error),
            Ok(target) => Ok(PlanView::Restore { target }),
        },
        Ok(Strategy::Reversible) => match reversal_queue(target, ledger) {
            Err(error) => Err(error),
            Ok(queue) => Ok(PlanView::Reverse { queue }),
        },
    }
}

/// The contents of a plan or the failure in its place.
pub open spec fn plan_result(r: Result<Plan, RollbackError>) -> Result<PlanView, ErrorView> {
    match r {
        Ok(plan) => Ok(plan@),
        Err(e) => Err(e@),
    }
}

/// The contents of a queue or the failure in its place.
pub open spec fn queue_result(r: Result<Vec<ExecutedMigration>, RollbackError>) -> Result<
    Seq<LedgerRow>,
    ErrorView,
> {
    match r {
        Ok(queue) => Ok(row_views(queue@)),
        Err(e) => Err(e@),
    }
}

/// Picks the strategy for a catalog.
pub fn choose_strategy(catalog: &Catalog) -> (r: Result<Strategy, RollbackError>)
    ensures
        match r {
            Ok(strategy) => strategy_of(catalog@) == Ok::<Strategy, ErrorView>(strategy),
            Err(e) => strategy_of(catalog@) == Err::<Strategy, ErrorView>(e@),
        },
{
    match catalog.latest() {
        None => Err(RollbackError::NoMigrations),
        Some(migration) => {
            if migration.migration_type == MigrationType::Simple {
                Ok(Strategy::Snapshot)
            } else {
                Ok(Strategy::Reversible)
            }
        },
    }
}

/// Picks the name that the snapshot strategy looks for.
pub fn choose_restore_target(target: &Option<String>, ledger: &Ledger) -> (r: Result<
    String,
    RollbackError,
>)
    ensures
        name_result(r) == restore_target(option_text(*target), ledger@),
{
    match target {
        Some(target) => Ok(target.clone()),
        None => {
            let rows = ledger.rows();
            if rows.len() > 1 {
                Ok(rows[1].name.clone())
            } else if rows.len() == 1 {
                Ok(String::from_str("0_empty"))
            } else {
                Err(RollbackError::NoTarget)
            }
        },
    }
}

/// Tells how the reversible strategy reads a target.
pub fn classify_target(target: &Vec<char>) -> (kind: TargetKind)
    ensures
        kind == target_kind(target@),
{
    if is_all_numeric(target) {
        TargetKind::Version
    } else if contains_separator(target) {
        TargetKind::Name
    } else {
        TargetKind::Description
    }
}

/// Tests whether the target, read as `kind`, names the row.
fn names_row(target: &Vec<char>, kind: TargetKind, row: &ExecutedMigration) -> (r: bool)
    requires
        kind == target_kind(target@),
    ensures
        r == row_matches(target@, row@),
{
    match kind {
        TargetKind::Version => {
            let text = version_text(row.version);
            same_text(&text, target)
        },
        TargetKind::Name => {
            let text = chars_of(row.name.as_str());
            same_text(&text, target)
        },
        TargetKind::Description => {
            let text = chars_of(row.description.as_str());
            same_text(&text, target)
        },
    }
}

/// The rows after position `at`, newest first.
fn rows_after(rows: &Vec<ExecutedMigration>, at: usize) -> (queue: Vec<ExecutedMigration>)
    requires
        at < rows.len(),
    ensures
        row_views(queue@) == row_views(rows@).skip(at + 1).reverse(),
{
    let ghost wanted = row_views(rows@).skip(at + 1).reverse();
    let mut queue: Vec<ExecutedMigration> = Vec::new();
    let mut k: usize = rows.len() - 1;
    while k > at
        invariant
            at <= k < rows.len(),
            wanted == row_views(rows@).skip(at + 1).reverse(),
            queue@.len() == rows.len() - 1 - k,
            forall|j: int| 0 <= j < queue@.len() ==> row_views(queue@)[j] == wanted[j],
        decreases k,
    {
        queue.push(rows[k].duplicate());
        k -= 1;
    }
    assert(row_views(queue@) =~= wanted);
    queue
}

/// Picks the rows that the reversible strategy reverses, in the order in
/// which it reverses them.
pub fn plan_reversal(target: &Option<String>, ledger: &Ledger) -> (r: Result<
    Vec<ExecutedMigration>,
    RollbackError,
>)
    ensures
        queue_result(r) == reversal_queue(option_text(*target), ledger@),
{
    let rows = ledger.rows();
    let ghost views = ledger@;
    if rows.len() == 0 {
        return Err(RollbackError::NothingToRollBack);
    }
    let text = match target {
        None => {
            let mut queue: Vec<ExecutedMigration> = Vec::new();
            queue.push(rows[rows.len() - 1].duplicate());
            assert(row_views(queue@) =~= seq![views.last()]);
            return Ok(queue);
        },
        Some(text) => text,
    };
    let wanted = chars_of(text.as_str());
    let kind = classify_target(&wanted);
    let mut found: Option<usize> = None;
    let mut i: usize = 0;
    while i < rows.len()
        invariant
            i <= rows.len(),
            views == row_views(rows@),
            views == ledger@,
            views.len() > 0,
            option_text(*target) == Some(text@),
            wanted@ == text@,
            kind == target_kind(text@),
            found is None ==> forall|k: int| 0 <= k < i ==> !match_at(text@, views, k),
            found matches Some(f) ==> {
                &&& f < i
                &&& match_at(text@, views, f as int)
                &&& forall|k: int| 0 <= k < i && match_at(text@, views, k) ==> k == f
            },
        decreases rows.len() - i,
    {
        if names_row(&wanted, kind, &rows[i]) {
            assert(match_at(text@, views, i as int));
            match found {
                None => {
                    found = Some(i);
                },
                Some(f) => {
                    assert(match_at(text@, views, f as int));
                    return Err(RollbackError::MigrationAmbiguous { target: text.clone() });
                },
            }
        }
        i += 1;
    }
    match found {
        None => {
            assert forall|k: int| !match_at(text@, views, k) by {}
            Err(RollbackError::MigrationNotFound { target: text.clone() })
        },
        Some(f) => {
            assert(match_at(text@, views, f as int));
            assert forall|k: int| match_at(text@, views, k) implies k == f by {}
            Ok(rows_after(rows, f))
        },
    }
}

/// Plans a rollback to `target` against the ledger and the catalog.
pub fn plan(target: &Option<String>, ledger: &Ledger, catalog: &Catalog) -> (r: Result<
    Plan,
    RollbackError,
>)
    ensures
        plan_result(r) == plan_of(option_text(*target), ledger@, catalog@),
{
    match choose_strategy(catalog) {
        Err(error) => Err(error),
        Ok(Strategy::Snapshot) => match choose_restore_target(target, ledger) {
            Err(error) => Err(error),
            Ok(target) => Ok(Plan::Restore { target }),
        },
        Ok(Strategy::Reversible) => match plan_reversal(target, ledger) {
            Err(error) => Err(error),
            Ok(queue) => Ok(Plan::Reverse { queue }),
        },
    }
}

} // verus!
