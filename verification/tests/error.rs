use rollback::error::{ErrorKind, RollbackError};

#[test]
fn catalog_failures_are_catalog_errors() {
    assert_eq!(
        RollbackError::MalformedFileName { file: "x".to_string() }.kind(),
        ErrorKind::Catalog
    );
    assert_eq!(RollbackError::MissingPair { name: "1_a".to_string() }.kind(), ErrorKind::Catalog);
    assert_eq!(RollbackError::DuplicateVersion { version: 1 }.kind(), ErrorKind::Catalog);
}

#[test]
fn ledger_failure_is_a_ledger_error() {
    assert_eq!(RollbackError::LedgerOutOfOrder { version: 1 }.kind(), ErrorKind::Ledger);
}

#[test]
fn nothing_to_do_is_a_usage_error() {
    assert_eq!(RollbackError::NoMigrations.kind(), ErrorKind::Usage);
    assert_eq!(RollbackError::NoTarget.kind(), ErrorKind::Usage);
    assert_eq!(RollbackError::NothingToRollBack.kind(), ErrorKind::Usage);
}

#[test]
fn unmatched_targets_are_resolution_errors() {
    let target = "1".to_string();
    assert_eq!(
        RollbackError::SnapshotNotFound { target: target.clone() }.kind(),
        ErrorKind::Resolution
    );
    assert_eq!(
        RollbackError::SnapshotAmbiguous { target: target.clone() }.kind(),
        ErrorKind::Resolution
    );
    assert_eq!(
        RollbackError::MigrationNotFound { target: target.clone() }.kind(),
        ErrorKind::Resolution
    );
    assert_eq!(RollbackError::MigrationAmbiguous { target }.kind(), ErrorKind::Resolution);
}

#[test]
fn connection_failures_are_environment_errors() {
    assert_eq!(RollbackError::InvalidUrl.kind(), ErrorKind::Environment);
    assert_eq!(RollbackError::MissingUser.kind(), ErrorKind::Environment);
}

#[test]
fn failed_steps_are_execution_errors() {
    assert_eq!(RollbackError::ResetFailed.kind(), ErrorKind::Execution);
    assert_eq!(
        RollbackError::RestoreFailed { snapshot: "1_a.sql.bak".to_string() }.kind(),
        ErrorKind::Execution
    );
    assert_eq!(
        RollbackError::ReversalFailed { step: 1, name: "1_a".to_string() }.kind(),
        ErrorKind::Execution
    );
}

#[test]
fn stray_event_is_a_protocol_error() {
    assert_eq!(RollbackError::UnexpectedEvent.kind(), ErrorKind::Protocol);
}

#[test]
fn each_class_has_an_exit_status_of_its_own() {
    let kinds = [
        ErrorKind::Usage,
        ErrorKind::Resolution,
        ErrorKind::Execution,
        ErrorKind::Environment,
        ErrorKind::Catalog,
        ErrorKind::Ledger,
        ErrorKind::Protocol,
    ];
    let statuses: Vec<u8> = kinds.iter().map(|kind| kind.exit_status()).collect();
    assert_eq!(statuses, vec![2, 3, 4, 5, 6, 7, 8]);
}
