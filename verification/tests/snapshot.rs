use rollback::error::RollbackError;
use rollback::snapshot::{get_backups, has_backup_suffix, resolve_backup};

fn snapshot_names(names: &[&str]) -> Vec<String> {
    names.iter().map(|name| name.to_string()).collect()
}

#[test]
fn backup_suffix_is_recognised() {
    assert!(has_backup_suffix("1_init.sql.bak"));
    assert!(has_backup_suffix(".sql.bak"));
    assert!(!has_backup_suffix("1_init.sql"));
    assert!(!has_backup_suffix("1_init.sql.bak.gz"));
    assert!(!has_backup_suffix(""));
}

#[test]
fn get_backups_keeps_snapshots_only() {
    let entries = snapshot_names(&["notes.txt", "1_init.sql.bak", "1_init.sql", "README"]);
    assert_eq!(get_backups(&entries), snapshot_names(&["1_init.sql.bak"]));
}

#[test]
fn get_backups_sorts_by_name() {
    let entries = snapshot_names(&[
        "2_users.sql.bak",
        "0_empty.sql.bak",
        "10_orders.sql.bak",
        "1_init.sql.bak",
    ]);
    assert_eq!(
        get_backups(&entries),
        snapshot_names(&[
            "0_empty.sql.bak",
            "10_orders.sql.bak",
            "1_init.sql.bak",
            "2_users.sql.bak"
        ])
    );
}

#[test]
fn get_backups_of_an_empty_folder() {
    assert_eq!(get_backups(&Vec::new()), Vec::<String>::new());
}

#[test]
fn get_backups_keeps_a_repeated_entry() {
    let entries = snapshot_names(&["b.sql.bak", "a.sql.bak", "b.sql.bak"]);
    assert_eq!(get_backups(&entries), snapshot_names(&["a.sql.bak", "b.sql.bak", "b.sql.bak"]));
}

#[test]
fn get_backups_agrees_with_a_standard_sort() {
    let entries = snapshot_names(&[
        "z.sql.bak",
        "é.sql.bak",
        "Z.sql.bak",
        "a.sql.bak",
        "skipped",
        "10_x.sql.bak",
        "9_x.sql.bak",
    ]);
    let mut expected: Vec<String> =
        entries.iter().filter(|name| name.ends_with(".sql.bak")).cloned().collect();
    expected.sort();
    assert_eq!(get_backups(&entries), expected);
}

#[test]
fn target_with_separator_needs_the_full_name() {
    let backups = snapshot_names(&["0_empty.sql.bak", "1_init.sql.bak", "2_users.sql.bak"]);
    assert_eq!(resolve_backup(&backups, "1_init.sql.bak"), Ok("1_init.sql.bak".to_string()));
}

#[test]
fn target_with_separator_must_not_leave_out_the_ending() {
    let backups = snapshot_names(&["0_empty.sql.bak", "1_init.sql.bak", "2_users.sql.bak"]);
    assert_eq!(
        resolve_backup(&backups, "1_init"),
        Err(RollbackError::SnapshotNotFound { target: "1_init".to_string() })
    );
    assert_eq!(
        resolve_backup(&backups, "0_empty"),
        Err(RollbackError::SnapshotNotFound { target: "0_empty".to_string() })
    );
}

#[test]
fn target_with_separator_matches_no_prefix() {
    let backups = snapshot_names(&["0_empty.sql.bak", "1_init.sql.bak", "2_users.sql.bak"]);
    assert_eq!(
        resolve_backup(&backups, "1_"),
        Err(RollbackError::SnapshotNotFound { target: "1_".to_string() })
    );
    assert_eq!(
        resolve_backup(&backups, "1_in"),
        Err(RollbackError::SnapshotNotFound { target: "1_in".to_string() })
    );
    assert_eq!(
        resolve_backup(&backups, "1_init.sql"),
        Err(RollbackError::SnapshotNotFound { target: "1_init.sql".to_string() })
    );
    assert_eq!(
        resolve_backup(&backups, "1_init_more"),
        Err(RollbackError::SnapshotNotFound { target: "1_init_more".to_string() })
    );
}

#[test]
fn target_with_separator_is_never_ambiguous() {
    let backups = snapshot_names(&["1_x.sql.bak", "1_x.sql.bak.sql.bak", "1_x.sql.bak_2.sql.bak"]);
    assert_eq!(resolve_backup(&backups, "1_x.sql.bak"), Ok("1_x.sql.bak".to_string()));
    assert_eq!(
        resolve_backup(&backups, "1_x.sql.bak.sql.bak"),
        Ok("1_x.sql.bak.sql.bak".to_string())
    );
    assert_eq!(
        resolve_backup(&backups, "1_x"),
        Err(RollbackError::SnapshotNotFound { target: "1_x".to_string() })
    );
}

#[test]
fn target_with_separator_matches_a_name_without_the_ending_if_listed() {
    let backups = snapshot_names(&["1_x", "1_x.sql.bak"]);
    assert_eq!(resolve_backup(&backups, "1_x"), Ok("1_x".to_string()));
    assert_eq!(resolve_backup(&backups, "1_x.sql.bak"), Ok("1_x.sql.bak".to_string()));
}

#[test]
fn target_without_separator_matches_by_prefix() {
    let backups = snapshot_names(&["0_empty.sql.bak", "1_init.sql.bak", "11_more.sql.bak"]);
    assert_eq!(resolve_backup(&backups, "1"), Ok("1_init.sql.bak".to_string()));
    assert_eq!(resolve_backup(&backups, "11"), Ok("11_more.sql.bak".to_string()));
    assert_eq!(resolve_backup(&backups, "0"), Ok("0_empty.sql.bak".to_string()));
}

#[test]
fn target_without_separator_and_no_match() {
    let backups = snapshot_names(&["0_empty.sql.bak", "1_init.sql.bak"]);
    assert_eq!(
        resolve_backup(&backups, "2"),
        Err(RollbackError::SnapshotNotFound { target: "2".to_string() })
    );
    assert_eq!(
        resolve_backup(&Vec::new(), "2"),
        Err(RollbackError::SnapshotNotFound { target: "2".to_string() })
    );
}

#[test]
fn target_without_separator_and_several_matches() {
    let backups = snapshot_names(&["1_init.sql.bak", "1_other.sql.bak", "2_users.sql.bak"]);
    assert_eq!(
        resolve_backup(&backups, "1"),
        Err(RollbackError::SnapshotAmbiguous { target: "1".to_string() })
    );
}

#[test]
fn empty_target_matches_names_that_begin_with_the_separator() {
    let backups = snapshot_names(&["_x.sql.bak", "1_init.sql.bak"]);
    assert_eq!(resolve_backup(&backups, ""), Ok("_x.sql.bak".to_string()));
}

#[test]
fn resolution_does_not_depend_on_the_order() {
    let one = snapshot_names(&["1_init.sql.bak", "2_users.sql.bak", "3_x.sql.bak"]);
    let other = snapshot_names(&["3_x.sql.bak", "1_init.sql.bak", "2_users.sql.bak"]);
    for target in ["1", "2", "3", "4", "2_users.sql.bak", "2_users"] {
        assert_eq!(resolve_backup(&one, target), resolve_backup(&other, target));
    }
}
