//! The execution ledger: which migrations have been applied, in version order.

use crate::error::{ErrorView, RollbackError};
use vstd::prelude::*;

verus! {

/// One row of the ledger: a migration that has been applied.
#[derive(Clone, Debug, PartialEq, Eq)]
pub struct ExecutedMigration {
    pub version: i64,
    /// `{version}_{description}`.
    pub name: String,
    pub description: String,
    /// When the migration was applied, in seconds since the Unix epoch.
    pub applied_at: i64,
}

/// The mathematical content of an [`ExecutedMigration`].
pub struct LedgerRow {
    pub version: int,
    pub name: Seq<char>,
    pub description: Seq<char>,
    pub applied_at: int,
}

impl View for ExecutedMigration {
    type V = LedgerRow;

    open spec fn view(&self) -> LedgerRow {
        LedgerRow {
            version: self.version as int,
            name: self.name@,
            description: self.description@,
            applied_at: self.applied_at as int,
        }
    }
}

/// The contents of a list of rows.
pub open spec fn row_views(rows: Seq<ExecutedMigration>) -> Seq<LedgerRow> {
    rows.map_values(|r: ExecutedMigration| r@)
}

/// Versions rise strictly from each row to the next, so none occurs twice.
pub open spec fn ascending(rows: Seq<LedgerRow>) -> bool {
    forall|i: int, j: int| 0 <= i < j < rows.len() ==> rows[i].version < rows[j].version
}

/// The row at `i` does not exceed the version of the row before it.
pub open spec fn disorder_at(rows: Seq<LedgerRow>, i: int) -> bool {
    0 < i < rows.len() && rows[i].version <= rows[i - 1].version
}

/// Whether some row carries `version`.
pub open spec fn has_version(rows: Seq<LedgerRow>, version: int) -> bool {
    exists|i: int| 0 <= i < rows.len() && #[trigger] rows[i].version == version
}

/// The rows that do not carry `version`, in their order.
pub open spec fn without_version(rows: Seq<LedgerRow>, version: int) -> Seq<LedgerRow> {
    rows.filter(|r: LedgerRow| r.version != version)
}

/// Filtering out a version that no row carries changes nothing.
pub proof fn lemma_without_absent(rows: Seq<LedgerRow>, version: int)
    requires
        !has_version(rows, version),
    ensures
        without_version(rows, version) == rows,
    decreases rows.len(),
{
    reveal(Seq::filter);
    if rows.len() > 0 {
        let front = rows.drop_last();
        assert(rows.last().version != version) by {
            assert(rows[rows.len() - 1].version != version);
        }
        assert(!has_version(front, version)) by {
            if has_version(front, version) {
                let i = choose|i: int| 0 <= i < front.len() && #[trigger] front[i].version == version;
                assert(rows[i].version == version);
            }
        }
        lemma_without_absent(front, version);
        assert(front.push(rows.last()) =~= rows);
    }
}

/// Filtering out a version that exactly one row carries removes that row.
pub proof fn lemma_without_present(rows: Seq<LedgerRow>, version: int, at: int)
    requires
        0 <= at < rows.len(),
        rows[at].version == version,
        forall|j: int| 0 <= j < rows.len() && j != at ==> #[trigger] rows[j].version != version,
    ensures
        without_version(rows, version) == rows.remove(at),
    decreases rows.len(),
{
    reveal(Seq::filter);
    let front = rows.drop_last();
    if at == rows.len() - 1 {
        assert(!has_version(front, version)) by {
            if has_version(front, version) {
                let i = choose|i: int| 0 <= i < front.len() && #[trigger] front[i].version == version;
                assert(rows[i].version == version);
            }
        }
        lemma_without_absent(front, version);
        assert(rows.remove(at) =~= front);
    } else {
        assert(rows.last().version != version) by {
            assert(rows[rows.len() - 1].version != version);
        }
        assert forall|j: int| 0 <= j < front.len() && j != at implies #[trigger] front[j].version
            != version by {
            assert(rows[j].version != version);
        }
        lemma_without_present(front, version, at);
        assert(front.remove(at).push(rows.last()) =~= rows.remove(at));
    }
}

/// The rows that are left without a version are the rows that do not
/// carry it.
pub proof fn lemma_without_contains(rows: Seq<LedgerRow>, version: int, row: LedgerRow)
    ensures
        without_version(rows, version).contains(row) <==> rows.contains(row) && row.version
            != version,
{
    let keep = |r: LedgerRow| r.version != version;
    let left = without_version(rows, version);
    if left.contains(row) {
        rows.lemma_filter_contains_rev(keep, row);
        let i = choose|i: int| 0 <= i < left.len() && left[i] == row;
        rows.lemma_filter_pred(keep, i);
    }
    if rows.contains(row) && row.version != version {
        let i = choose|i: int| 0 <= i < rows.len() && rows[i] == row;
        rows.lemma_filter_contains(keep, i);
    }
}

/// Leaving out a version keeps the rows in order.
pub proof fn lemma_without_ascending(rows: Seq<LedgerRow>, version: int)
    requires
        ascending(rows),
    ensures
        ascending(without_version(rows, version)),
{
    if has_version(rows, version) {
        let at = choose|i: int| 0 <= i < rows.len() && #[trigger] rows[i].version == version;
        assert forall|j: int| 0 <= j < rows.len() && j != at implies #[trigger] rows[j].version
            != version by {
            if j < at {
                assert(rows[j].version < rows[at].version);
            } else {
                assert(rows[at].version < rows[j].version);
            }
        }
        lemma_without_present(rows, version, at);
    } else {
        lemma_without_absent(rows, version);
    }
}

impl ExecutedMigration {
    /// A copy with the same contents.
    pub fn duplicate(&self) -> (copy: ExecutedMigration)
        ensures
            copy@ == self@,
    {
        ExecutedMigration {
            version: self.version,
            name: self.name.clone(),
            description: self.description.clone(),
            applied_at: self.applied_at,
        }
    }
}

/// The ledger rows in strictly ascending version order.
#[derive(Clone, Debug, PartialEq, Eq)]
pub struct Ledger {
    rows: Vec<ExecutedMigration>,
}

impl View for Ledger {
    type V = Seq<LedgerRow>;

    closed spec fn view(&self) -> Seq<LedgerRow> {
        row_views(self.rows@)
    }
}

impl Ledger {
    /// The invariant of a ledger: strictly ascending versions.
    pub open spec fn well_formed(&self) -> bool {
        ascending(self@)
    }

    /// Takes the rows as the database returned them. They are accepted as
    /// they stand if their versions rise strictly; otherwise the first row
    /// that is out of order is reported.
    pub fn new(rows: Vec<ExecutedMigration>) -> (r: Result<Ledger, RollbackError>)
        ensures
            match r {
                Ok(ledger) => {
                    &&& ascending(row_views(rows@))
                    &&& ledger@ == row_views(rows@)
                    &&& ledger.well_formed()
                },
                Err(e) => exists|i: int|
                    {
                        &&& #[trigger] disorder_at(row_views(rows@), i)
                        &&& forall|k: int| 0 < k < i ==> !disorder_at(row_views(rows@), k)
                        &&& e@ == (ErrorView::LedgerOutOfOrder {
                            version: row_views(rows@)[i].version,
                        })
                    },
            },
    {
        let ghost views = row_views(rows@);
        let mut i: usize = 1;
        while i < rows.len()
            invariant
                1 <= i,
                views == row_views(rows@),
                forall|k: int| 0 < k < i && k < views.len() ==> !disorder_at(views, k),
                forall|a: int, b: int| 0 <= a < b < i && b < views.len() ==> views[a].version < views[b].version,
            decreases rows.len() - i,
        {
            if rows[i].version <= rows[i - 1].version {
                assert(disorder_at(views, i as int));
                return Err(RollbackError::LedgerOutOfOrder { version: rows[i].version });
            }
            assert(!disorder_at(views, i as int));
            assert forall|a: int, b: int| 0 <= a < b < i + 1 && b < views.len() implies views[a].version
                < views[b].version by {
                if b == i && a < i - 1 {
                    assert(views[a].version < views[i - 1].version);
                }
            }
            i += 1;
        }
        Ok(Ledger { rows })
    }

    /// The number of rows.
    pub fn len(&self) -> (n: usize)
        ensures
            n == self@.len(),
    {
        self.rows.len()
    }

    /// Whether the ledger holds no row.
    pub fn is_empty(&self) -> (r: bool)
        ensures
            r == (self@.len() == 0),
    {
        self.rows.len() == 0
    }

    /// The rows, oldest first.
    pub fn rows(&self) -> (rows: &Vec<ExecutedMigration>)
        ensures
            row_views(rows@) == self@,
    {
        &self.rows
    }

    /// Removes the row that carries `version`, if there is one, and tells
    /// whether there was. No other row is touched.
    pub fn delete_row(&mut self, version: i64) -> (removed: bool)
        requires
            old(self).well_formed(),
        ensures
            final(self).well_formed(),
            final(self)@ == without_version(old(self)@, version as int),
            removed == has_version(old(self)@, version as int),
    {
        let ghost before = self@;
        let mut i: usize = 0;
        while i < self.rows.len()
            invariant
                i <= self.rows.len(),
                self@ == before,
                before == old(self)@,
                ascending(before),
                forall|k: int| 0 <= k < i ==> #[trigger] before[k].version != version,
            decreases self.rows.len() - i,
        {
            if self.rows[i].version == version {
                assert(before[i as int].version == version);
                assert forall|j: int| 0 <= j < before.len() && j != i implies #[trigger] before[j].version
                    != version by {
                    if j < i {
                        assert(before[j].version < before[i as int].version);
                    } else {
                        assert(before[i as int].version < before[j].version);
                    }
                }
                proof {
                    lemma_without_present(before, version as int, i as int);
                }
                self.rows.remove(i);
                assert(self@ =~= before.remove(i as int));
                return true;
            }
            i += 1;
        }
        proof {
            lemma_without_absent(before, version as int);
        }
        false
    }
}

} // verus!
