use rollback::catalog::Catalog;
use rollback::error::RollbackError;
use rollback::ledger::{ExecutedMigration, Ledger};
use rollback::rollback::{next_after_username, Action, Down, Event, Phase, Rollback};

const URL_WITH_USER: &str = "postgres://alice@localhost/app";
const URL_WITHOUT_USER: &str = "postgres://localhost/app";

fn applied(version: i64, description: &str) -> ExecutedMigration {
    ExecutedMigration {
        version,
        name: format!("{}_{}", version, description),
        description: description.to_string(),
        applied_at: 1_700_000_000,
    }
}

fn ledger_of(rows: &[(i64, &str)]) -> Ledger {
    Ledger::new(rows.iter().map(|(version, description)| applied(*version, description)).collect())
        .unwrap()
}

/// A ledger whose rows bear the names of their snapshots.
fn ledger_named_as_snapshots(rows: &[(i64, &str)]) -> Ledger {
    Ledger::new(
        rows.iter()
            .map(|(version, description)| ExecutedMigration {
                version: *version,
                name: format!("{}_{}.sql.bak", version, description),
                description: description.to_string(),
                applied_at: 1_700_000_000,
            })
            .collect(),
    )
    .unwrap()
}

fn catalog_of(files: &[&str]) -> Catalog {
    let files: Vec<String> = files.iter().map(|file| file.to_string()).collect();
    Catalog::from_files(&files).unwrap()
}

fn reversible_catalog() -> Catalog {
    catalog_of(&[
        "1_init.up.sql",
        "1_init.down.sql",
        "2_add_users.up.sql",
        "2_add_users.down.sql",
        "3_orders.up.sql",
        "3_orders.down.sql",
    ])
}

fn simple_catalog() -> Catalog {
    catalog_of(&["1_init.sql", "2_add_users.sql", "3_orders.sql"])
}

fn down(target: Option<&str>, force: bool) -> Down {
    Down { target: target.map(|target| target.to_string()), force }
}

fn begin(down: &Down, url: &str, ledger: Ledger, catalog: &Catalog) -> (Rollback, Action) {
    down.run(url.to_string(), ledger, catalog)
}

fn folder(entries: &[&str]) -> Event {
    Event::Backups { entries: entries.iter().map(|entry| entry.to_string()).collect() }
}

fn reverse(version: i64, name: &str) -> Action {
    Action::Reverse { version, name: name.to_string() }
}

fn fail(error: RollbackError) -> Action {
    Action::Fail { error }
}

fn versions(rollback: &Rollback) -> Vec<i64> {
    rollback.ledger().rows().iter().map(|row| row.version).collect()
}

const RESET_FOR_ALICE: &str = "DROP SCHEMA public CASCADE;\nCREATE SCHEMA public;\nGRANT ALL ON SCHEMA public TO alice;\nGRANT ALL ON SCHEMA public TO public;\n";

#[test]
fn reversible_rollback_of_the_most_recent_migration() {
    let catalog = catalog_of(&[
        "1_init.up.sql",
        "1_init.down.sql",
        "2_add_users.up.sql",
        "2_add_users.down.sql",
    ]);
    let ledger = ledger_of(&[(1, "init"), (2, "add_users")]);
    let (mut rollback, action) = begin(&down(None, true), URL_WITH_USER, ledger, &catalog);
    assert_eq!(action, reverse(2, "2_add_users"));
    assert_eq!(rollback.phase(), Phase::Reversing);
    assert_eq!(rollback.done(), 0);
    assert_eq!(versions(&rollback), vec![1, 2]);
    assert_eq!(rollback.advance(Event::Succeeded), Action::Finish);
    assert_eq!(rollback.phase(), Phase::Finished);
    assert_eq!(rollback.done(), 1);
    assert_eq!(versions(&rollback), vec![1]);
}

#[test]
fn snapshot_rollback_by_one_step() {
    let ledger = ledger_named_as_snapshots(&[(1, "init"), (2, "add_users"), (3, "orders")]);
    let (mut rollback, action) = begin(&down(None, true), URL_WITH_USER, ledger, &simple_catalog());
    assert_eq!(action, Action::ListBackups);
    assert_eq!(rollback.phase(), Phase::Listing);
    let action = rollback.advance(folder(&[
        "3_orders.sql.bak",
        "1_init.sql.bak",
        "2_add_users.sql.bak",
        "0_empty.sql.bak",
    ]));
    assert_eq!(action, Action::ResetSchema { statement: RESET_FOR_ALICE.to_string() });
    assert_eq!(rollback.phase(), Phase::Resetting);
    assert_eq!(
        rollback.advance(Event::Succeeded),
        Action::RestoreSnapshot { snapshot: "2_add_users.sql.bak".to_string() }
    );
    assert_eq!(rollback.phase(), Phase::Restoring);
    assert_eq!(rollback.advance(Event::Succeeded), Action::Finish);
    assert_eq!(rollback.phase(), Phase::Finished);
    assert_eq!(versions(&rollback), vec![1, 2, 3]);
}

#[test]
fn default_target_needs_a_snapshot_of_that_very_name() {
    for force in [false, true] {
        let ledger = ledger_of(&[(1, "init"), (2, "add_users"), (3, "orders")]);
        let (mut rollback, action) =
            begin(&down(None, force), URL_WITH_USER, ledger, &simple_catalog());
        assert_eq!(action, Action::ListBackups);
        let action = rollback.advance(folder(&[
            "1_init.sql.bak",
            "2_add_users.sql.bak",
            "2_add_users_more.sql.bak",
            "3_orders.sql.bak",
        ]));
        assert_eq!(
            action,
            fail(RollbackError::SnapshotNotFound { target: "2_add_users".to_string() })
        );
        assert_eq!(rollback.phase(), Phase::Finished);
        assert_eq!(versions(&rollback), vec![1, 2, 3]);
    }
}

#[test]
fn given_target_with_separator_needs_the_whole_file_name() {
    let ledger = ledger_of(&[(1, "init"), (2, "add_users")]);
    let (mut rollback, _) =
        begin(&down(Some("1_init"), false), URL_WITH_USER, ledger, &simple_catalog());
    let action = rollback.advance(folder(&["1_init.sql.bak", "2_add_users.sql.bak"]));
    assert_eq!(action, fail(RollbackError::SnapshotNotFound { target: "1_init".to_string() }));
    let ledger = ledger_of(&[(1, "init"), (2, "add_users")]);
    let (mut rollback, _) =
        begin(&down(Some("1_init.sql.bak"), false), URL_WITH_USER, ledger, &simple_catalog());
    let action = rollback.advance(folder(&["1_init.sql.bak", "2_add_users.sql.bak"]));
    assert_eq!(action, Action::ReportSnapshot { snapshot: "1_init.sql.bak".to_string() });
}

#[test]
fn empty_database_target_names_no_snapshot() {
    for force in [false, true] {
        let ledger = ledger_of(&[(1, "init")]);
        let (mut rollback, action) =
            begin(&down(None, force), URL_WITH_USER, ledger, &simple_catalog());
        assert_eq!(action, Action::ListBackups);
        let action = rollback.advance(folder(&["1_init.sql.bak", "0_empty.sql.bak", "0_empty"]));
        assert_eq!(action, fail(RollbackError::SnapshotNotFound { target: "0_empty".to_string() }));
        assert_eq!(rollback.phase(), Phase::Finished);
    }
}

#[test]
fn snapshot_rollback_needs_a_target_or_a_ledger_row() {
    for force in [false, true] {
        let (rollback, action) =
            begin(&down(None, force), URL_WITH_USER, ledger_of(&[]), &simple_catalog());
        assert_eq!(action, fail(RollbackError::NoTarget));
        assert_eq!(rollback.phase(), Phase::Finished);
    }
}

#[test]
fn snapshot_rollback_to_a_given_target() {
    let ledger = ledger_of(&[(1, "init"), (2, "add_users"), (3, "orders")]);
    let (mut rollback, action) =
        begin(&down(Some("1"), true), URL_WITH_USER, ledger, &simple_catalog());
    assert_eq!(action, Action::ListBackups);
    let action =
        rollback.advance(folder(&["1_init.sql.bak", "2_add_users.sql.bak", "11_later.sql.bak"]));
    assert_eq!(action, Action::ResetSchema { statement: RESET_FOR_ALICE.to_string() });
    assert_eq!(
        rollback.advance(Event::Succeeded),
        Action::RestoreSnapshot { snapshot: "1_init.sql.bak".to_string() }
    );
}

#[test]
fn snapshot_rollback_passes_over_files_that_are_no_snapshots() {
    let ledger = ledger_of(&[(1, "init"), (2, "add_users")]);
    let (mut rollback, _) = begin(&down(Some("2"), false), URL_WITH_USER, ledger, &simple_catalog());
    let action = rollback.advance(folder(&["2_add_users.sql", "2_notes.txt", "2_add_users.sql.bak"]));
    assert_eq!(action, Action::ReportSnapshot { snapshot: "2_add_users.sql.bak".to_string() });
    let ledger = ledger_of(&[(1, "init"), (2, "add_users")]);
    let (mut rollback, _) =
        begin(&down(Some("2_notes.txt"), false), URL_WITH_USER, ledger, &simple_catalog());
    let action = rollback.advance(folder(&["2_notes.txt", "2_add_users.sql.bak"]));
    assert_eq!(action, fail(RollbackError::SnapshotNotFound { target: "2_notes.txt".to_string() }));
}

#[test]
fn snapshot_that_is_missing_is_not_resolved() {
    let ledger = ledger_named_as_snapshots(&[(1, "init"), (2, "add_users"), (3, "orders")]);
    let (mut rollback, _) = begin(&down(None, true), URL_WITH_USER, ledger, &simple_catalog());
    let action = rollback.advance(folder(&["1_init.sql.bak", "3_orders.sql.bak"]));
    assert_eq!(
        action,
        fail(RollbackError::SnapshotNotFound { target: "2_add_users.sql.bak".to_string() })
    );
    assert_eq!(rollback.phase(), Phase::Finished);
}

#[test]
fn snapshot_that_is_ambiguous_is_not_resolved() {
    let ledger = ledger_of(&[(1, "init"), (2, "add_users")]);
    let (mut rollback, _) = begin(&down(Some("1"), true), URL_WITH_USER, ledger, &simple_catalog());
    let action = rollback.advance(folder(&["1_init.sql.bak", "1_again.sql.bak"]));
    assert_eq!(action, fail(RollbackError::SnapshotAmbiguous { target: "1".to_string() }));
    assert_eq!(rollback.phase(), Phase::Finished);
}

#[test]
fn dry_run_of_the_snapshot_strategy_reports_the_snapshot() {
    let ledger = ledger_named_as_snapshots(&[(1, "init"), (2, "add_users"), (3, "orders")]);
    let (mut rollback, action) = begin(&down(None, false), URL_WITH_USER, ledger, &simple_catalog());
    assert_eq!(action, Action::ListBackups);
    let action = rollback.advance(folder(&["1_init.sql.bak", "2_add_users.sql.bak"]));
    assert_eq!(action, Action::ReportSnapshot { snapshot: "2_add_users.sql.bak".to_string() });
    assert_eq!(rollback.phase(), Phase::Finished);
    assert_eq!(versions(&rollback), vec![1, 2, 3]);
}

#[test]
fn dry_run_of_the_reversible_strategy_reports_the_queue() {
    let ledger = ledger_of(&[(1, "init"), (2, "add_users"), (3, "orders")]);
    let (rollback, action) =
        begin(&down(Some("1"), false), URL_WITH_USER, ledger, &reversible_catalog());
    assert_eq!(
        action,
        Action::ReportReversals { names: vec!["3_orders".to_string(), "2_add_users".to_string()] }
    );
    assert_eq!(rollback.phase(), Phase::Finished);
    assert_eq!(versions(&rollback), vec![1, 2, 3]);
}

#[test]
fn dry_run_gives_the_same_plan_each_time() {
    for _ in 0..3 {
        let ledger = ledger_of(&[(1, "init"), (2, "add_users"), (3, "orders")]);
        let (rollback, action) = begin(&down(None, false), URL_WITH_USER, ledger, &reversible_catalog());
        assert_eq!(action, Action::ReportReversals { names: vec!["3_orders".to_string()] });
        assert_eq!(versions(&rollback), vec![1, 2, 3]);
    }
}

#[test]
fn dry_run_answers_no_event_with_a_change() {
    let ledger = ledger_of(&[(1, "init"), (2, "add_users"), (3, "orders")]);
    let (mut rollback, _) = begin(&down(None, false), URL_WITH_USER, ledger, &reversible_catalog());
    for _ in 0..3 {
        assert_eq!(rollback.advance(Event::Succeeded), fail(RollbackError::UnexpectedEvent));
        assert_eq!(rollback.advance(Event::Failed), fail(RollbackError::UnexpectedEvent));
        assert_eq!(
            rollback.advance(Event::User { name: Some("alice".to_string()) }),
            fail(RollbackError::UnexpectedEvent)
        );
        assert_eq!(
            rollback.advance(folder(&["2_add_users.sql.bak"])),
            fail(RollbackError::UnexpectedEvent)
        );
        assert_eq!(versions(&rollback), vec![1, 2, 3]);
    }
}

#[test]
fn forced_reversible_rollback_of_an_empty_ledger_is_a_usage_error() {
    for target in [None, Some("1")] {
        for force in [false, true] {
            let (rollback, action) =
                begin(&down(target, force), URL_WITH_USER, ledger_of(&[]), &reversible_catalog());
            assert_eq!(action, fail(RollbackError::NothingToRollBack));
            assert_eq!(rollback.phase(), Phase::Finished);
        }
    }
}

#[test]
fn rollback_without_migrations_is_a_usage_error() {
    let ledger = ledger_of(&[(1, "init")]);
    let (_, action) = begin(&down(None, true), URL_WITH_USER, ledger, &catalog_of(&[]));
    assert_eq!(action, fail(RollbackError::NoMigrations));
}

#[test]
fn reversal_goes_newest_first() {
    let ledger = ledger_of(&[(1, "init"), (2, "add_users"), (3, "orders")]);
    let (mut rollback, action) =
        begin(&down(Some("init"), true), URL_WITH_USER, ledger, &reversible_catalog());
    assert_eq!(action, reverse(3, "3_orders"));
    assert_eq!(rollback.advance(Event::Succeeded), reverse(2, "2_add_users"));
    assert_eq!(versions(&rollback), vec![1, 2]);
    assert_eq!(rollback.done(), 1);
    assert_eq!(rollback.advance(Event::Succeeded), Action::Finish);
    assert_eq!(versions(&rollback), vec![1]);
    assert_eq!(rollback.done(), 2);
}

#[test]
fn reversal_to_the_most_recent_migration_does_nothing() {
    let ledger = ledger_of(&[(1, "init"), (2, "add_users")]);
    let (rollback, action) =
        begin(&down(Some("2"), true), URL_WITH_USER, ledger, &reversible_catalog());
    assert_eq!(action, Action::Finish);
    assert_eq!(rollback.phase(), Phase::Finished);
    assert_eq!(versions(&rollback), vec![1, 2]);
}

#[test]
fn reversal_to_an_unknown_target_is_not_resolved() {
    let ledger = ledger_of(&[(1, "init"), (2, "add_users")]);
    let (_, action) = begin(&down(Some("7"), true), URL_WITH_USER, ledger, &reversible_catalog());
    assert_eq!(action, fail(RollbackError::MigrationNotFound { target: "7".to_string() }));
}

#[test]
fn failure_of_the_second_reversal_keeps_the_first() {
    let ledger = ledger_of(&[(1, "init"), (2, "add_users"), (3, "orders")]);
    let (mut rollback, action) =
        begin(&down(Some("1"), true), URL_WITH_USER, ledger, &reversible_catalog());
    assert_eq!(action, reverse(3, "3_orders"));
    assert_eq!(rollback.advance(Event::Succeeded), reverse(2, "2_add_users"));
    assert_eq!(
        rollback.advance(Event::Failed),
        fail(RollbackError::ReversalFailed { step: 1, name: "2_add_users".to_string() })
    );
    assert_eq!(rollback.phase(), Phase::Finished);
    assert_eq!(rollback.done(), 1);
    assert_eq!(versions(&rollback), vec![1, 2]);
}

#[test]
fn failure_of_the_first_reversal_changes_nothing() {
    let ledger = ledger_of(&[(1, "init"), (2, "add_users")]);
    let (mut rollback, _) = begin(&down(None, true), URL_WITH_USER, ledger, &reversible_catalog());
    assert_eq!(
        rollback.advance(Event::Failed),
        fail(RollbackError::ReversalFailed { step: 0, name: "2_add_users".to_string() })
    );
    assert_eq!(versions(&rollback), vec![1, 2]);
}

#[test]
fn nothing_follows_a_failed_reversal() {
    let ledger = ledger_of(&[(1, "init"), (2, "add_users"), (3, "orders")]);
    let (mut rollback, _) =
        begin(&down(Some("1"), true), URL_WITH_USER, ledger, &reversible_catalog());
    rollback.advance(Event::Failed);
    assert_eq!(rollback.advance(Event::Succeeded), fail(RollbackError::UnexpectedEvent));
    assert_eq!(versions(&rollback), vec![1, 2, 3]);
}

#[test]
fn url_without_user_asks_for_the_fallback_user() {
    let ledger = ledger_of(&[(1, "init"), (2, "add_users")]);
    let (mut rollback, _) = begin(&down(Some("2"), true), URL_WITHOUT_USER, ledger, &simple_catalog());
    let action = rollback.advance(folder(&["2_add_users.sql.bak"]));
    assert_eq!(action, Action::ReadUser);
    assert_eq!(rollback.phase(), Phase::AwaitingUser);
    assert_eq!(
        rollback.advance(Event::User { name: Some("alice".to_string()) }),
        Action::ResetSchema { statement: RESET_FOR_ALICE.to_string() }
    );
    assert_eq!(
        rollback.advance(Event::Succeeded),
        Action::RestoreSnapshot { snapshot: "2_add_users.sql.bak".to_string() }
    );
}

#[test]
fn missing_fallback_user_is_an_environment_error() {
    let ledger = ledger_of(&[(1, "init"), (2, "add_users")]);
    let (mut rollback, _) = begin(&down(Some("2"), true), URL_WITHOUT_USER, ledger, &simple_catalog());
    rollback.advance(folder(&["2_add_users.sql.bak"]));
    assert_eq!(rollback.advance(Event::User { name: None }), fail(RollbackError::MissingUser));
    assert_eq!(rollback.phase(), Phase::Finished);
}

#[test]
fn url_that_does_not_parse_is_an_environment_error() {
    let ledger = ledger_of(&[(1, "init"), (2, "add_users")]);
    let (mut rollback, _) = begin(&down(Some("2"), true), "no url at all", ledger, &simple_catalog());
    let action = rollback.advance(folder(&["2_add_users.sql.bak"]));
    assert_eq!(action, fail(RollbackError::InvalidUrl));
    assert_eq!(rollback.phase(), Phase::Finished);
}

#[test]
fn dry_run_does_not_look_at_the_url() {
    let ledger = ledger_of(&[(1, "init"), (2, "add_users")]);
    let (mut rollback, _) = begin(&down(Some("2"), false), "no url at all", ledger, &simple_catalog());
    let action = rollback.advance(folder(&["2_add_users.sql.bak"]));
    assert_eq!(action, Action::ReportSnapshot { snapshot: "2_add_users.sql.bak".to_string() });
}

#[test]
fn failed_reset_ends_the_rollback() {
    let ledger = ledger_of(&[(1, "init"), (2, "add_users")]);
    let (mut rollback, _) = begin(&down(Some("2"), true), URL_WITH_USER, ledger, &simple_catalog());
    rollback.advance(folder(&["2_add_users.sql.bak"]));
    assert_eq!(rollback.advance(Event::Failed), fail(RollbackError::ResetFailed));
    assert_eq!(rollback.phase(), Phase::Finished);
}

#[test]
fn failed_restore_is_reported_with_its_snapshot() {
    let ledger = ledger_of(&[(1, "init"), (2, "add_users")]);
    let (mut rollback, _) = begin(&down(Some("2"), true), URL_WITH_USER, ledger, &simple_catalog());
    rollback.advance(folder(&["2_add_users.sql.bak"]));
    rollback.advance(Event::Succeeded);
    assert_eq!(
        rollback.advance(Event::Failed),
        fail(RollbackError::RestoreFailed { snapshot: "2_add_users.sql.bak".to_string() })
    );
    assert_eq!(rollback.phase(), Phase::Finished);
}

#[test]
fn event_that_answers_no_action_ends_the_rollback() {
    let ledger = ledger_of(&[(1, "init"), (2, "add_users")]);
    let (mut rollback, _) = begin(&down(None, true), URL_WITH_USER, ledger, &simple_catalog());
    assert_eq!(rollback.advance(Event::Succeeded), fail(RollbackError::UnexpectedEvent));
    assert_eq!(rollback.phase(), Phase::Finished);
    let ledger = ledger_of(&[(1, "init"), (2, "add_users")]);
    let (mut rollback, _) = begin(&down(None, true), URL_WITH_USER, ledger, &reversible_catalog());
    assert_eq!(
        rollback.advance(folder(&["2_add_users.sql.bak"])),
        fail(RollbackError::UnexpectedEvent)
    );
    assert_eq!(rollback.phase(), Phase::Finished);
}

#[test]
fn next_after_username_goes_by_the_username() {
    assert_eq!(
        next_after_username(Some("bob".to_string())),
        (
            Phase::Resetting,
            Action::ResetSchema { statement: RESET_FOR_ALICE.replace("alice", "bob") }
        )
    );
    assert_eq!(next_after_username(Some(String::new())), (Phase::AwaitingUser, Action::ReadUser));
    assert_eq!(next_after_username(None), (Phase::Finished, fail(RollbackError::InvalidUrl)));
}
