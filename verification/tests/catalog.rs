use sqlx_migrate::applied::{
    latest_applied_version, validate_applied_migrations, AppliedIndex,
};
use sqlx_migrate::error::MigrateError;
use sqlx_migrate::migration::{same_checksum, AppliedMigration, Migration};
use sqlx_migrate::migration_type::MigrationType;
use sqlx_migrate::migrator::Migrator;
use sqlx_migrate::status::{info, MigrationStatus, StatusLine};

fn record(version: i64, migration_type: MigrationType, tag: &str) -> Migration {
    Migration::new(version, tag.to_string(), migration_type, String::new(), vec![version as u8])
}

fn listing(migrator: &Migrator) -> Vec<(i64, String)> {
    migrator.migrations().iter().map(|m| (m.version, m.description.clone())).collect()
}

#[test]
fn catalog_is_sorted_by_version() {
    let migrator = Migrator::new(vec![
        record(30, MigrationType::Simple, "c"),
        record(10, MigrationType::Simple, "a"),
        record(20, MigrationType::Simple, "b"),
        record(-5, MigrationType::Simple, "z"),
    ])
    .unwrap();
    assert_eq!(
        listing(&migrator),
        vec![
            (-5, "z".to_string()),
            (10, "a".to_string()),
            (20, "b".to_string()),
            (30, "c".to_string()),
        ]
    );
    assert_eq!(migrator.len(), 4);
    assert_eq!(migrator.get(1).version, 10);
    assert_eq!(migrator.last_version(), Some(30));
}

#[test]
fn sorting_keeps_the_order_within_a_version() {
    let migrator = Migrator::new(vec![
        record(2, MigrationType::ReversibleDown, "2 down"),
        record(1, MigrationType::ReversibleUp, "1 up"),
        record(2, MigrationType::ReversibleUp, "2 up"),
        record(1, MigrationType::ReversibleDown, "1 down"),
    ])
    .unwrap();
    assert_eq!(
        listing(&migrator),
        vec![
            (1, "1 up".to_string()),
            (1, "1 down".to_string()),
            (2, "2 down".to_string()),
            (2, "2 up".to_string()),
        ]
    );
}

#[test]
fn empty_catalog() {
    let migrator = Migrator::new(vec![]).unwrap();
    assert_eq!(migrator.len(), 0);
    assert_eq!(migrator.last_version(), None);
    assert!(!migrator.version_exists(0));
    assert!(!migrator.contains_version(0));
    assert_eq!(migrator.lower_bound(7), 0);
}

#[test]
fn duplicate_up_version_is_refused() {
    let r = Migrator::new(vec![
        record(3, MigrationType::Simple, "a"),
        record(1, MigrationType::Simple, "b"),
        record(3, MigrationType::ReversibleUp, "c"),
    ]);
    assert_eq!(r.unwrap_err(), MigrateError::DuplicateVersion(3));
}

#[test]
fn duplicate_down_version_is_refused() {
    let r = Migrator::new(vec![
        record(4, MigrationType::ReversibleDown, "a"),
        record(4, MigrationType::ReversibleUp, "b"),
        record(4, MigrationType::ReversibleDown, "c"),
    ]);
    assert_eq!(r.unwrap_err(), MigrateError::DuplicateVersion(4));
}

#[test]
fn least_duplicated_version_is_reported() {
    let r = Migrator::new(vec![
        record(9, MigrationType::Simple, "a"),
        record(9, MigrationType::Simple, "b"),
        record(2, MigrationType::Simple, "c"),
        record(2, MigrationType::Simple, "d"),
        record(1, MigrationType::Simple, "e"),
    ]);
    assert_eq!(r.unwrap_err(), MigrateError::DuplicateVersion(2));
}

#[test]
fn version_exists_asks_for_an_up_script() {
    let migrator = Migrator::new(vec![
        record(1, MigrationType::ReversibleUp, ""),
        record(1, MigrationType::ReversibleDown, ""),
        record(2, MigrationType::ReversibleDown, ""),
        record(3, MigrationType::Simple, ""),
        record(4, MigrationType::ReversibleDown, ""),
        record(4, MigrationType::ReversibleUp, ""),
    ])
    .unwrap();
    assert!(migrator.version_exists(1));
    assert!(!migrator.version_exists(2));
    assert!(migrator.version_exists(3));
    assert!(migrator.version_exists(4));
    assert!(!migrator.version_exists(5));
    assert!(!migrator.version_exists(0));
    assert!(migrator.contains_version(2));
    assert!(migrator.contains_version(4));
    assert!(!migrator.contains_version(5));
}

#[test]
fn lower_bound_finds_the_first_place_not_below() {
    let migrator = Migrator::new(vec![
        record(10, MigrationType::Simple, ""),
        record(20, MigrationType::ReversibleUp, ""),
        record(20, MigrationType::ReversibleDown, ""),
        record(30, MigrationType::Simple, ""),
    ])
    .unwrap();
    assert_eq!(migrator.lower_bound(5), 0);
    assert_eq!(migrator.lower_bound(10), 0);
    assert_eq!(migrator.lower_bound(11), 1);
    assert_eq!(migrator.lower_bound(20), 1);
    assert_eq!(migrator.lower_bound(21), 3);
    assert_eq!(migrator.lower_bound(30), 3);
    assert_eq!(migrator.lower_bound(31), 4);
}

#[test]
fn same_checksum_compares_bytes() {
    assert!(same_checksum(&vec![], &vec![]));
    assert!(same_checksum(&vec![1, 2, 3], &vec![1, 2, 3]));
    assert!(!same_checksum(&vec![1, 2, 3], &vec![1, 2]));
    assert!(!same_checksum(&vec![1, 2, 3], &vec![1, 2, 4]));
    assert!(!same_checksum(&vec![0], &vec![]));
}

#[test]
fn latest_applied_version_is_the_greatest() {
    assert_eq!(latest_applied_version(&vec![]), 0);
    let rows = vec![
        AppliedMigration::new(3, vec![]),
        AppliedMigration::new(9, vec![]),
        AppliedMigration::new(4, vec![]),
    ];
    assert_eq!(latest_applied_version(&rows), 9);
    let rows = vec![AppliedMigration::new(-3, vec![]), AppliedMigration::new(-7, vec![])];
    assert_eq!(latest_applied_version(&rows), -3);
    let rows = vec![AppliedMigration::new(i64::MIN, vec![])];
    assert_eq!(latest_applied_version(&rows), i64::MIN);
}

#[test]
fn index_takes_the_last_row_of_a_version() {
    let rows = vec![
        AppliedMigration::new(1, vec![1]),
        AppliedMigration::new(2, vec![2]),
        AppliedMigration::new(1, vec![3]),
    ];
    let index = AppliedIndex::new(&rows);
    assert_eq!(index.find(1), Some(2));
    assert_eq!(index.find(2), Some(1));
    assert_eq!(index.find(3), None);
    assert_eq!(AppliedIndex::new(&vec![]).find(1), None);
}

#[test]
fn validate_applied_migrations_reports_the_first_missing() {
    let migrator = Migrator::new(vec![
        record(1, MigrationType::Simple, ""),
        record(2, MigrationType::ReversibleDown, ""),
    ])
    .unwrap();
    let rows = vec![
        AppliedMigration::new(2, vec![]),
        AppliedMigration::new(7, vec![]),
        AppliedMigration::new(5, vec![]),
    ];
    assert_eq!(
        validate_applied_migrations(&rows, &migrator, false),
        Err(MigrateError::VersionMissing(7))
    );
    assert_eq!(validate_applied_migrations(&rows, &migrator, true), Ok(()));
    let rows = vec![AppliedMigration::new(2, vec![]), AppliedMigration::new(1, vec![])];
    assert_eq!(validate_applied_migrations(&rows, &migrator, false), Ok(()));
    assert_eq!(validate_applied_migrations(&vec![], &migrator, false), Ok(()));
}

#[test]
fn info_classifies_each_up_script() {
    let migrator = Migrator::new(vec![
        record(1, MigrationType::ReversibleUp, ""),
        record(1, MigrationType::ReversibleDown, ""),
        record(2, MigrationType::ReversibleUp, ""),
        record(2, MigrationType::ReversibleDown, ""),
        record(3, MigrationType::Simple, ""),
    ])
    .unwrap();
    let rows = vec![AppliedMigration::new(2, vec![99]), AppliedMigration::new(1, vec![1])];
    assert_eq!(
        info(&migrator, &rows),
        vec![
            StatusLine { index: 0, status: MigrationStatus::Installed, row: Some(1) },
            StatusLine {
                index: 2,
                status: MigrationStatus::InstalledDifferentChecksum,
                row: Some(0),
            },
            StatusLine { index: 4, status: MigrationStatus::Pending, row: None },
        ]
    );
}

#[test]
fn info_goes_by_the_last_row_of_a_version() {
    let migrator = Migrator::new(vec![record(1, MigrationType::Simple, "")]).unwrap();
    let rows = vec![AppliedMigration::new(1, vec![1]), AppliedMigration::new(1, vec![5])];
    assert_eq!(
        info(&migrator, &rows),
        vec![StatusLine {
            index: 0,
            status: MigrationStatus::InstalledDifferentChecksum,
            row: Some(1),
        }]
    );
}

#[test]
fn status_labels() {
    assert_eq!(MigrationStatus::Pending.label(), "pending");
    assert_eq!(MigrationStatus::Installed.label(), "installed");
    assert_eq!(
        MigrationStatus::InstalledDifferentChecksum.label(),
        "installed (different checksum)"
    );
}
