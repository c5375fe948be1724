//! Migration records as they are read from the migrations folder.

use vstd::prelude::*;

verus! {

/// How a migration script is meant to be run.
#[derive(Clone, Copy, Debug, PartialEq, Eq, Structural)]
pub enum MigrationType {
    /// A single irreversible script; undone only by restoring a snapshot.
    Simple,
    /// The forward half of a reversible pair.
    Up,
    /// The inverse half of a reversible pair.
    Down,
}

/// One migration script of the catalog. Its identity is its version.
#[derive(Clone, Debug, PartialEq, Eq)]
pub struct Migration {
    pub version: i64,
    /// `{version}_{description}`, as written in the file name.
    pub name: String,
    pub description: String,
    pub migration_type: MigrationType,
}

/// The mathematical content of a [`Migration`].
pub struct MigrationView {
    pub version: int,
    pub name: Seq<char>,
    pub description: Seq<char>,
    pub migration_type: MigrationType,
}

impl View for Migration {
    type V = MigrationView;

    open spec fn view(&self) -> MigrationView {
        MigrationView {
            version: self.version as int,
            name: self.name@,
            description: self.description@,
            migration_type: self.migration_type,
        }
    }
}

/// The contents of a list of migrations.
pub open spec fn migration_views(list: Seq<Migration>) -> Seq<MigrationView> {
    list.map_values(|m: Migration| m@)
}

impl Migration {
    /// A copy with the same contents.
    pub fn duplicate(&self) -> (copy: Migration)
        ensures
            copy@ == self@,
    {
        Migration {
            version: self.version,
            name: self.name.clone(),
            description: self.description.clone(),
            migration_type: self.migration_type,
        }
    }
}

} // verus!
