//! The rollback itself, as a machine that the caller drives: the machine
//! decides, the caller acts. Each action that the machine hands out is
//! answered by the event that came of it, until an action ends the
//! rollback.

use crate::catalog::Catalog;
use crate::connection::{reset_statement, reset_statement_for, url_username, username_of};
use crate::error::{ErrorView, RollbackError};
use crate::ledger::{ascending, row_views, without_version, ExecutedMigration, Ledger, LedgerRow};
use crate::migration::MigrationView;
use crate::planner::{option_text, plan, plan_of, Plan, PlanView};
use crate::snapshot::{
    backup_names, get_backups, lemma_resolution_ignores_order, resolve_backup, resolved_snapshot,
};
use crate::text::texts;
use vstd::prelude::*;
use vstd::seq_lib::to_multiset_contains;

verus! {

/// A request to roll back.
#[derive(Clone, Debug, PartialEq, Eq)]
pub struct Down {
    /// How far back to go. Without it each strategy goes back one step.
    pub target: Option<String>,
    /// Without it the rollback is a dry run: the plan is reported and
    /// nothing is changed.
    pub force: bool,
}

/// The mathematical content of a [`Down`].
pub struct DownView {
    pub target: Option<Seq<char>>,
    pub force: bool,
}

impl View for Down {
    type V = DownView;

    open spec fn view(&self) -> DownView {
        DownView { target: option_text(self.target), force: self.force }
    }
}

/// What the caller is to do next.
#[derive(Clone, Debug, PartialEq, Eq)]
pub enum Action {
    /// List the entries of the backup folder and answer with them.
    ListBackups,
    /// Look up the fallback user and answer with it.
    ReadUser,
    /// Dry run of the snapshot strategy: report the snapshot that would be
    /// restored. This ends the rollback.
    ReportSnapshot { snapshot: String },
    /// Dry run of the reversible strategy: report the migrations whose
    /// down-scripts would run, in that order. This ends the rollback.
    ReportReversals { names: Vec<String> },
    /// Run the statement that resets the schema.
    ResetSchema { statement: String },
    /// Feed the snapshot to the restore utility of the database.
    RestoreSnapshot { snapshot: String },
    /// Run the down-script of the migration in a session of its own and
    /// delete its ledger row. The two succeed together or count as failed.
    Reverse { version: i64, name: String },
    /// The rollback is complete.
    Finish,
    /// The rollback ends with a failure.
    Fail { error: RollbackError },
}

/// The mathematical content of an [`Action`].
pub enum ActionView {
    ListBackups,
    ReadUser,
    ReportSnapshot { snapshot: Seq<char> },
    ReportReversals { names: Seq<Seq<char>> },
    ResetSchema { statement: Seq<char> },
    RestoreSnapshot { snapshot: Seq<char> },
    Reverse { version: int, name: Seq<char> },
    Finish,
    Fail { error: ErrorView },
}

impl View for Action {
    type V = ActionView;

    open spec fn view(&self) -> ActionView {
        match *self {
            Action::ListBackups => ActionView::ListBackups,
            Action::ReadUser => ActionView::ReadUser,
            Action::ReportSnapshot { snapshot } => ActionView::ReportSnapshot { snapshot: snapshot@ },
            Action::ReportReversals { names } => ActionView::ReportReversals {
                names: texts(names@),
            },
            Action::ResetSchema { statement } => ActionView::ResetSchema { statement: statement@ },
            Action::RestoreSnapshot { snapshot } => ActionView::RestoreSnapshot {
                snapshot: snapshot@,
            },
            Action::Reverse { version, name } => ActionView::Reverse {
                version: version as int,
                name: name@,
            },
            Action::Finish => ActionView::Finish,
            Action::Fail { error } => ActionView::Fail { error: error@ },
        }
    }
}

impl ActionView {
    /// Whether carrying out the action changes the database.
    pub open spec fn mutates(self) -> bool {
        self is ResetSchema || self is RestoreSnapshot || self is Reverse
    }

    /// Whether the action ends the rollback.
    pub open spec fn is_final(self) -> bool {
        self is ReportSnapshot || self is ReportReversals || self is Finish || self is Fail
    }
}

/// What came of the last action.
#[derive(Clone, Debug, PartialEq, Eq)]
pub enum Event {
    /// The entries of the backup folder, in any order.
    Backups { entries: Vec<String> },
    /// The fallback user, if one is known.
    User { name: Option<String> },
    /// The action was carried out.
    Succeeded,
    /// The action failed.
    Failed,
}

/// The mathematical content of an [`Event`].
pub enum EventView {
    Backups { entries: Seq<Seq<char>> },
    User { name: Option<Seq<char>> },
    Succeeded,
    Failed,
}

impl View for Event {
    type V = EventView;

    open spec fn view(&self) -> EventView {
        match *self {
            Event::Backups { entries } => EventView::Backups { entries: texts(entries@) },
            Event::User { name } => EventView::User { name: option_text(name) },
            Event::Succeeded => EventView::Succeeded,
            Event::Failed => EventView::Failed,
        }
    }
}

/// Where a rollback stands.
#[derive(Clone, Copy, Debug, PartialEq, Eq, Structural)]
pub enum Phase {
    /// Waiting for the entries of the backup folder.
    Listing,
    /// Waiting for the fallback user.
    AwaitingUser,
    /// Waiting for the schema to be reset.
    Resetting,
    /// Waiting for the snapshot to be restored.
    Restoring,
    /// Waiting for a migration to be reversed.
    Reversing,
    /// Over: no event is expected any more.
    Finished,
}

/// A rollback in progress.
#[derive(Debug)]
pub struct Rollback {
    force: bool,
    url: String,
    phase: Phase,
    target: String,
    snapshot: String,
    ledger: Ledger,
    queue: Vec<ExecutedMigration>,
    done: usize,
}

/// The mathematical content of a [`Rollback`].
pub struct RollbackView {
    /// Whether the rollback may change the database.
    pub force: bool,
    /// The connection URL.
    pub url: Seq<char>,
    pub phase: Phase,
    /// The name that the snapshot strategy looks for.
    pub target: Seq<char>,
    /// The snapshot that the target resolved to.
    pub snapshot: Seq<char>,
    /// The ledger as the rollback has left it so far.
    pub ledger: Seq<LedgerRow>,
    /// The rows that the reversible strategy reverses, in that order.
    pub queue: Seq<LedgerRow>,
    /// How many rows of the queue have been reversed.
    pub done: nat,
}

impl View for Rollback {
    type V = RollbackView;

    closed spec fn view(&self) -> RollbackView {
        RollbackView {
            force: self.force,
            url: self.url@,
            phase: self.phase,
            target: self.target@,
            snapshot: self.snapshot@,
            ledger: self.ledger@,
            queue: row_views(self.queue@),
            done: self.done as nat,
        }
    }
}

impl RollbackView {
    /// What holds of every rollback: the ledger is in order; while
    /// migrations are being reversed one of the queue is pending; and a
    /// dry run waits for nothing but the backup folder.
    pub open spec fn well_formed(self) -> bool {
        &&& ascending(self.ledger)
        &&& self.done <= self.queue.len()
        &&& self.phase == Phase::Reversing ==> self.done < self.queue.len()
        &&& !self.force ==> self.phase == Phase::Listing || self.phase == Phase::Finished
    }

    /// The same rollback, over.
    pub open spec fn finished(self) -> RollbackView {
        RollbackView { phase: Phase::Finished, ..self }
    }

    /// The action that reverses the pending row of the queue.
    pub open spec fn reverse_pending(self) -> ActionView {
        ActionView::Reverse {
            version: self.queue[self.done as int].version,
            name: self.queue[self.done as int].name,
        }
    }
}

/// The names of the rows, in their order.
pub open spec fn row_names(rows: Seq<LedgerRow>) -> Seq<Seq<char>> {
    rows.map_values(|row: LedgerRow| row.name)
}

/// How a rollback begins. Where no plan can be made it ends at once. A
/// plan to restore a snapshot asks for the backup folder. Of a plan to
/// reverse migrations a dry run reports the queue, and a forced run starts
/// on it.
pub open spec fn start(
    down: DownView,
    url: Seq<char>,
    ledger: Seq<LedgerRow>,
    catalog: Seq<MigrationView>,
) -> (RollbackView, ActionView) {
    let idle = RollbackView {
        force: down.force,
        url,
        phase: Phase::Finished,
        target: Seq::empty(),
        snapshot: Seq::empty(),
        ledger,
        queue: Seq::empty(),
        done: 0,
    };
    match plan_of(down.target, ledger, catalog) {
        Err(error) => (idle, ActionView::Fail { error }),
        Ok(PlanView::Restore { target }) => (
            RollbackView { phase: Phase::Listing, target, ..idle },
            ActionView::ListBackups,
        ),
        Ok(PlanView::Reverse { queue }) => if !down.force {
            (idle, ActionView::ReportReversals { names: row_names(queue) })
        } else if queue.len() == 0 {
            (idle, ActionView::Finish)
        } else {
            let next = RollbackView { phase: Phase::Reversing, queue, ..idle };
            (next, next.reverse_pending())
        },
    }
}

/// How a forced snapshot rollback goes on from the username of the
/// connection URL, where `None` stands for a URL that does not parse: such
/// a URL ends the rollback; a username has the schema reset for that
/// user; an empty one has the fallback user asked for.
pub open spec fn after_username(username: Option<Seq<char>>) -> (Phase, ActionView) {
    match username {
        None => (Phase::Finished, ActionView::Fail { error: ErrorView::InvalidUrl }),
        Some(user) => if user.len() > 0 {
            (Phase::Resetting, ActionView::ResetSchema { statement: reset_statement(user) })
        } else {
            (Phase::AwaitingUser, ActionView::ReadUser)
        },
    }
}

/// How a rollback answers an event.
pub open spec fn step(state: RollbackView, event: EventView) -> (RollbackView, ActionView) {
    match (state.phase, event) {
        (Phase::Listing, EventView::Backups { entries }) => match resolved_snapshot(
            state.target,
            backup_names(entries),
        ) {
            Err(error) => (state.finished(), ActionView::Fail { error }),
            Ok(snapshot) => if !state.force {
                (
                    RollbackView { snapshot, ..state }.finished(),
                    ActionView::ReportSnapshot { snapshot },
                )
            } else {
                let (phase, action) = after_username(url_username(state.url));
                (RollbackView { phase, snapshot, ..state }, action)
            },
        },
        (Phase::AwaitingUser, EventView::User { name }) => match name {
            None => (state.finished(), ActionView::Fail { error: ErrorView::MissingUser }),
            Some(user) => (
                RollbackView { phase: Phase::Resetting, ..state },
                ActionView::ResetSchema { statement: reset_statement(user) },
            ),
        },
        (Phase::Resetting, EventView::Succeeded) => (
            RollbackView { phase: Phase::Restoring, ..state },
            ActionView::RestoreSnapshot { snapshot: state.snapshot },
        ),
        (Phase::Resetting, EventView::Failed) => (
            state.finished(),
            ActionView::Fail { error: ErrorView::ResetFailed },
        ),
        (Phase::Restoring, EventView::Succeeded) => (state.finished(), ActionView::Finish),
        (Phase::Restoring, EventView::Failed) => (
            state.finished(),
            ActionView::Fail { error: ErrorView::RestoreFailed { snapshot: state.snapshot } },
        ),
        (Phase::Reversing, EventView::Succeeded) => {
            let next = RollbackView {
                ledger: without_version(state.ledger, state.queue[state.done as int].version),
                done: state.done + 1,
                ..state
            };
            if next.done == next.queue.len() {
                (next.finished(), ActionView::Finish)
            } else {
                (next, next.reverse_pending())
            }
        },
        (Phase::Reversing, EventView::Failed) => (
            state.finished(),
            ActionView::Fail {
                error: ErrorView::ReversalFailed {
                    step: state.done,
                    name: state.queue[state.done as int].name,
                },
            },
        ),
        _ => (state.finished(), ActionView::Fail { error: ErrorView::UnexpectedEvent }),
    }
}

/// The names of the rows, in their order.
fn names_of(rows: &Vec<ExecutedMigration>) -> (names: Vec<String>)
    ensures
        texts(names@) == row_names(row_views(rows@)),
{
    let mut names: Vec<String> = Vec::new();
    let mut i: usize = 0;
    while i < rows.len()
        invariant
            i <= rows.len(),
            names@.len() == i,
            forall|k: int| 0 <= k < i ==> names@[k]@ == rows@[k].name@,
        decreases rows.len() - i,
    {
        names.push(rows[i].name.clone());
        i += 1;
    }
    assert(texts(names@) =~= row_names(row_views(rows@)));
    names
}

/// Tells how a forced snapshot rollback goes on from the username of the
/// connection URL: `None` where the URL does not parse.
pub fn next_after_username(username: Option<String>) -> (r: (Phase, Action))
    ensures
        (r.0, r.1@) == after_username(option_text(username)),
{
    match username {
        None => (Phase::Finished, Action::Fail { error: RollbackError::InvalidUrl }),
        Some(user) => {
            if !user.as_str().is_empty() {
                let statement = reset_statement_for(user.as_str());
                (Phase::Resetting, Action::ResetSchema { statement })
            } else {
                (Phase::AwaitingUser, Action::ReadUser)
            }
        },
    }
}

impl Down {
    /// Begins a rollback against the ledger and the catalog as they were
    /// read, and hands out its first action.
    pub fn run(&self, url: String, ledger: Ledger, catalog: &Catalog) -> (r: (Rollback, Action))
        requires
            ledger.well_formed(),
            catalog.well_formed(),
        ensures
            r.0@.well_formed(),
            (r.0@, r.1@) == start(self@, url@, ledger@, catalog@),
    {
        let mut rollback = Rollback {
            force: self.force,
            url,
            phase: Phase::Finished,
            target: String::new(),
            snapshot: String::new(),
            ledger,
            queue: Vec::new(),
            done: 0,
        };
        assert(row_views(rollback.queue@) =~= Seq::<LedgerRow>::empty());
        match plan(&self.target, &rollback.ledger, catalog) {
            Err(error) => (rollback, Action::Fail { error }),
            Ok(Plan::Restore { target }) => {
                rollback.phase = Phase::Listing;
                rollback.target = target;
                (rollback, Action::ListBackups)
            },
            Ok(Plan::Reverse { queue }) => {
                if !self.force {
                    let names = names_of(&queue);
                    (rollback, Action::ReportReversals { names })
                } else if queue.len() == 0 {
                    (rollback, Action::Finish)
                } else {
                    let action = Action::Reverse {
                        version: queue[0].version,
                        name: queue[0].name.clone(),
                    };
                    rollback.phase = Phase::Reversing;
                    rollback.queue = queue;
                    (rollback, action)
                }
            },
        }
    }
}

impl Rollback {
    /// Where the rollback stands.
    pub fn phase(&self) -> (phase: Phase)
        ensures
            phase == self@.phase,
    {
        self.phase
    }

    /// The ledger as the rollback has left it so far.
    pub fn ledger(&self) -> (ledger: &Ledger)
        ensures
            ledger@ == self@.ledger,
    {
        &self.ledger
    }

    /// How many migrations have been reversed.
    pub fn done(&self) -> (done: usize)
        ensures
            done == self@.done,
    {
        self.done
    }

    /// Takes the event that came of the last action and hands out the
    /// next action.
    pub fn advance(&mut self, event: Event) -> (action: Action)
        requires
            old(self)@.well_formed(),
        ensures
            final(self)@.well_formed(),
            (final(self)@, action@) == step(old(self)@, event@),
    {
        match self.phase {
            Phase::Listing => match event {
                Event::Backups { entries } => {
                    let backups = get_backups(&entries);
                    proof {
                        let sorted = texts(backups@);
                        let listed = backup_names(texts(entries@));
                        assert forall|name: Seq<char>| sorted.contains(name) <==> listed.contains(
                            name,
                        ) by {
                            to_multiset_contains(sorted, name);
                            to_multiset_contains(listed, name);
                        }
                        lemma_resolution_ignores_order(self.target@, sorted, listed);
                    }
                    match resolve_backup(&backups, self.target.as_str()) {
                        Err(error) => {
                            self.phase = Phase::Finished;
                            Action::Fail { error }
                        },
                        Ok(snapshot) => {
                            if !self.force {
                                let action = Action::ReportSnapshot { snapshot: snapshot.clone() };
                                self.snapshot = snapshot;
                                self.phase = Phase::Finished;
                                action
                            } else {
                                self.snapshot = snapshot;
                                let (phase, action) = next_after_username(
                                    username_of(self.url.as_str()),
                                );
                                self.phase = phase;
                                action
                            }
                        },
                    }
                },
                _ => {
                    self.phase = Phase::Finished;
                    Action::Fail { error: RollbackError::UnexpectedEvent }
                },
            },
            Phase::AwaitingUser => match event {
                Event::User { name: None } => {
                    self.phase = Phase::Finished;
                    Action::Fail { error: RollbackError::MissingUser }
                },
                Event::User { name: Some(user) } => {
                    self.phase = Phase::Resetting;
                    Action::ResetSchema { statement: reset_statement_for(user.as_str()) }
                },
                _ => {
                    self.phase = Phase::Finished;
                    Action::Fail { error: RollbackError::UnexpectedEvent }
                },
            },
            Phase::Resetting => match event {
                Event::Succeeded => {
                    self.phase = Phase::Restoring;
                    Action::RestoreSnapshot { snapshot: self.snapshot.clone() }
                },
                Event::Failed => {
                    self.phase = Phase::Finished;
                    Action::Fail { error: RollbackError::ResetFailed }
                },
                _ => {
                    self.phase = Phase::Finished;
                    Action::Fail { error: RollbackError::UnexpectedEvent }
                },
            },
            Phase::Restoring => match event {
                Event::Succeeded => {
                    self.phase = Phase::Finished;
                    Action::Finish
                },
                Event::Failed => {
                    self.phase = Phase::Finished;
                    Action::Fail {
                        error: RollbackError::RestoreFailed { snapshot: self.snapshot.clone() },
                    }
                },
                _ => {
                    self.phase = Phase::Finished;
                    Action::Fail { error: RollbackError::UnexpectedEvent }
                },
            },
            Phase::Reversing => match event {
                Event::Succeeded => {
                    assert(self.done < self.queue.len());
                    let version = self.queue[self.done].version;
                    self.ledger.delete_row(version);
                    self.done = self.done + 1;
                    if self.done == self.queue.len() {
                        self.phase = Phase::Finished;
                        Action::Finish
                    } else {
                        Action::Reverse {
                            version: self.queue[self.done].version,
                            name: self.queue[self.done].name.clone(),
                        }
                    }
                },
                Event::Failed => {
                    self.phase = Phase::Finished;
                    Action::Fail {
                        error: RollbackError::ReversalFailed {
                            step: self.done,
                            name: self.queue[self.done].name.clone(),
                        },
                    }
                },
                _ => {
                    self.phase = Phase::Finished;
                    Action::Fail { error: RollbackError::UnexpectedEvent }
                },
            },
            Phase::Finished => {
                Action::Fail { error: RollbackError::UnexpectedEvent }
            },
        }
    }
}

} // verus!
