//! The ways in which a rollback can fail, grouped by who has to act on them.

use vstd::prelude::*;

verus! {

/// The broad class of a failure, which decides the status reported to the
/// operator.
#[derive(Clone, Copy, Debug, PartialEq, Eq, Structural)]
pub enum ErrorKind {
    /// The migrations folder holds something that is no well-formed catalog.
    Catalog,
    /// The ledger rows are not in strictly ascending version order.
    Ledger,
    /// Nothing to roll back, or nothing to roll back to.
    Usage,
    /// A named snapshot or migration could not be matched uniquely.
    Resolution,
    /// The connection URL or the fallback user is missing or unusable.
    Environment,
    /// A step of the plan failed while it ran.
    Execution,
    /// The caller answered an action with an event that does not belong to it.
    Protocol,
}

impl ErrorKind {
    /// The exit status that the class stands for. No class shares its
    /// status with another, and none has the status of success.
    pub open spec fn status(self) -> int {
        match self {
            ErrorKind::Usage => 2,
            ErrorKind::Resolution => 3,
            ErrorKind::Execution => 4,
            ErrorKind::Environment => 5,
            ErrorKind::Catalog => 6,
            ErrorKind::Ledger => 7,
            ErrorKind::Protocol => 8,
        }
    }

    /// The exit status with which a program reports a failure of this
    /// class.
    pub fn exit_status(self) -> (status: u8)
        ensures
            status == self.status(),
            status != 0,
    {
        match self {
            ErrorKind::Usage => 2,
            ErrorKind::Resolution => 3,
            ErrorKind::Execution => 4,
            ErrorKind::Environment => 5,
            ErrorKind::Catalog => 6,
            ErrorKind::Ledger => 7,
            ErrorKind::Protocol => 8,
        }
    }
}

/// A failed rollback.
#[derive(Clone, Debug, PartialEq, Eq)]
pub enum RollbackError {
    /// A file name does not follow `{version}_{description}` with a known
    /// script extension.
    MalformedFileName { file: String },
    /// An up-script without its down-script, or the reverse.
    MissingPair { name: String },
    /// Two migrations that are not the two halves of one pair share a version.
    DuplicateVersion { version: i64 },
    /// A ledger row whose version does not exceed that of the row before it.
    LedgerOutOfOrder { version: i64 },
    /// The catalog holds no migration.
    NoMigrations,
    /// No target was given and the ledger holds no row to derive one from.
    NoTarget,
    /// The ledger is empty: every migration has been rolled back already.
    NothingToRollBack,
    /// No snapshot matches the target.
    SnapshotNotFound { target: String },
    /// More than one snapshot matches the target.
    SnapshotAmbiguous { target: String },
    /// No executed migration matches the target.
    MigrationNotFound { target: String },
    /// More than one executed migration matches the target.
    MigrationAmbiguous { target: String },
    /// The connection URL does not parse.
    InvalidUrl,
    /// The connection URL names no user and no fallback user is known.
    MissingUser,
    /// The statement that resets the schema failed; nothing was changed.
    ResetFailed,
    /// Restoring the snapshot failed after the schema had been reset: the
    /// schema is left empty.
    RestoreFailed { snapshot: String },
    /// Reversing the migration at position `step` of the queue failed; the
    /// `step` migrations before it stay reversed.
    ReversalFailed { step: usize, name: String },
    /// An event arrived that the pending action cannot produce.
    UnexpectedEvent,
}

/// The mathematical content of a [`RollbackError`].
pub enum ErrorView {
    MalformedFileName { file: Seq<char> },
    MissingPair { name: Seq<char> },
    DuplicateVersion { version: int },
    LedgerOutOfOrder { version: int },
    NoMigrations,
    NoTarget,
    NothingToRollBack,
    SnapshotNotFound { target: Seq<char> },
    SnapshotAmbiguous { target: Seq<char> },
    MigrationNotFound { target: Seq<char> },
    MigrationAmbiguous { target: Seq<char> },
    InvalidUrl,
    MissingUser,
    ResetFailed,
    RestoreFailed { snapshot: Seq<char> },
    ReversalFailed { step: nat, name: Seq<char> },
    UnexpectedEvent,
}

impl ErrorView {
    /// The class that each failure belongs to.
    pub open spec fn kind(self) -> ErrorKind {
        match self {
            ErrorView::MalformedFileName { .. } => ErrorKind::Catalog,
            ErrorView::MissingPair { .. } => ErrorKind::Catalog,
            ErrorView::DuplicateVersion { .. } => ErrorKind::Catalog,
            ErrorView::LedgerOutOfOrder { .. } => ErrorKind::Ledger,
            ErrorView::NoMigrations => ErrorKind::Usage,
            ErrorView::NoTarget => ErrorKind::Usage,
            ErrorView::NothingToRollBack => ErrorKind::Usage,
            ErrorView::SnapshotNotFound { .. } => ErrorKind::Resolution,
            ErrorView::SnapshotAmbiguous { .. } => ErrorKind::Resolution,
            ErrorView::MigrationNotFound { .. } => ErrorKind::Resolution,
            ErrorView::MigrationAmbiguous { .. } => ErrorKind::Resolution,
            ErrorView::InvalidUrl => ErrorKind::Environment,
            ErrorView::MissingUser => ErrorKind::Environment,
            ErrorView::ResetFailed => ErrorKind::Execution,
            ErrorView::RestoreFailed { .. } => ErrorKind::Execution,
            ErrorView::ReversalFailed { .. } => ErrorKind::Execution,
            ErrorView::UnexpectedEvent => ErrorKind::Protocol,
        }
    }
}

impl View for RollbackError {
    type V = ErrorView;

    open spec fn view(&self) -> ErrorView {
        match *self {
            RollbackError::MalformedFileName { file } => ErrorView::MalformedFileName { file: file@ },
            RollbackError::MissingPair { name } => ErrorView::MissingPair { name: name@ },
            RollbackError::DuplicateVersion { version } => ErrorView::DuplicateVersion {
                version: version as int,
            },
            RollbackError::LedgerOutOfOrder { version } => ErrorView::LedgerOutOfOrder {
                version: version as int,
            },
            RollbackError::NoMigrations => ErrorView::NoMigrations,
            RollbackError::NoTarget => ErrorView::NoTarget,
            RollbackError::NothingToRollBack => ErrorView::NothingToRollBack,
            RollbackError::SnapshotNotFound { target } => ErrorView::SnapshotNotFound {
                target: target@,
            },
            RollbackError::SnapshotAmbiguous { target } => ErrorView::SnapshotAmbiguous {
                target: target@,
            },
            RollbackError::MigrationNotFound { target } => ErrorView::MigrationNotFound {
                target: target@,
            },
            RollbackError::MigrationAmbiguous { target } => ErrorView::MigrationAmbiguous {
                target: target@,
            },
            RollbackError::InvalidUrl => ErrorView::InvalidUrl,
            RollbackError::MissingUser => ErrorView::MissingUser,
            RollbackError::ResetFailed => ErrorView::ResetFailed,
            RollbackError::RestoreFailed { snapshot } => ErrorView::RestoreFailed {
                snapshot: snapshot@,
            },
            RollbackError::ReversalFailed { step, name } => ErrorView::ReversalFailed {
                step: step as nat,
                name: name@,
            },
            RollbackError::UnexpectedEvent => ErrorView::UnexpectedEvent,
        }
    }
}

impl RollbackError {
    /// The class of this failure.
    pub fn kind(&self) -> (k: ErrorKind)
        ensures
            k == self@.kind(),
    {
        match self {
            RollbackError::MalformedFileName { .. } => ErrorKind::Catalog,
            RollbackError::MissingPair { .. } => ErrorKind::Catalog,
            RollbackError::DuplicateVersion { .. } => ErrorKind::Catalog,
            RollbackError::LedgerOutOfOrder { .. } => ErrorKind::Ledger,
            RollbackError::NoMigrations => ErrorKind::Usage,
            RollbackError::NoTarget => ErrorKind::Usage,
            RollbackError::NothingToRollBack => ErrorKind::Usage,
            RollbackError::SnapshotNotFound { .. } => ErrorKind::Resolution,
            RollbackError::SnapshotAmbiguous { .. } => ErrorKind::Resolution,
            RollbackError::MigrationNotFound { .. } => ErrorKind::Resolution,
            RollbackError::MigrationAmbiguous { .. } => ErrorKind::Resolution,
            RollbackError::InvalidUrl => ErrorKind::Environment,
            RollbackError::MissingUser => ErrorKind::Environment,
            RollbackError::ResetFailed => ErrorKind::Execution,
            RollbackError::RestoreFailed { .. } => ErrorKind::Execution,
            RollbackError::ReversalFailed { .. } => ErrorKind::Execution,
            RollbackError::UnexpectedEvent => ErrorKind::Protocol,
        }
    }
}

} // verus!
