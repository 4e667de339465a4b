use sqlx_migrate::bookkeeping::{table_name, Bookkeeping, DEFAULT_MIGRATION_TABLE};
use sqlx_migrate::commands::{execute, revert, run};
use sqlx_migrate::error::MigrateError;
use sqlx_migrate::migration::{AppliedMigration, Migration};
use sqlx_migrate::migration_type::MigrationType;
use sqlx_migrate::migrator::Migrator;
use sqlx_migrate::plan::{Step, StepStatus};
use sqlx_migrate::protocol::{Command, Options, Outcome};

fn script(version: i64, migration_type: MigrationType) -> Migration {
    Migration::new(
        version,
        format!("step {version}"),
        migration_type,
        format!("-- script {version}"),
        vec![version as u8, 7, 9],
    )
}

fn two_pairs() -> Migrator {
    Migrator::new(vec![
        script(1, MigrationType::ReversibleUp),
        script(1, MigrationType::ReversibleDown),
        script(2, MigrationType::ReversibleUp),
        script(2, MigrationType::ReversibleDown),
    ])
    .unwrap()
}

fn versions(store: &Bookkeeping) -> Vec<i64> {
    store.rows.iter().map(|r| r.version).collect()
}

#[test]
fn run_applies_all_then_revert_takes_one_at_a_time() {
    let migrator = two_pairs();
    let mut store = Bookkeeping::new();

    let report = run(&migrator, &mut store, false, false, None);
    assert_eq!(report.outcome, Outcome::Completed);
    assert_eq!(
        report.lines,
        vec![
            Step { index: 0, status: StepStatus::Applied },
            Step { index: 2, status: StepStatus::Applied },
        ]
    );
    assert_eq!(versions(&store), vec![1, 2]);

    let report = revert(&migrator, &mut store, false, false, None);
    assert_eq!(report.outcome, Outcome::Completed);
    assert_eq!(report.lines, vec![Step { index: 3, status: StepStatus::Applied }]);
    assert!(!report.nothing_to_revert);
    assert_eq!(versions(&store), vec![1]);

    let report = revert(&migrator, &mut store, false, false, None);
    assert_eq!(report.outcome, Outcome::Completed);
    assert_eq!(report.lines, vec![Step { index: 1, status: StepStatus::Applied }]);
    assert_eq!(versions(&store), Vec::<i64>::new());

    let report = revert(&migrator, &mut store, false, false, None);
    assert_eq!(report.outcome, Outcome::Completed);
    assert!(report.lines.is_empty());
    assert!(report.nothing_to_revert);
}

#[test]
fn run_with_target_skips_later_versions() {
    let migrator = two_pairs();
    let mut store = Bookkeeping::new();
    let report = run(&migrator, &mut store, false, false, Some(1));
    assert_eq!(report.outcome, Outcome::Completed);
    assert_eq!(
        report.lines,
        vec![
            Step { index: 0, status: StepStatus::Applied },
            Step { index: 2, status: StepStatus::Skipped },
        ]
    );
    assert_eq!(versions(&store), vec![1]);
}

#[test]
fn applied_version_missing_from_catalog_stops_both_commands() {
    let migrator = two_pairs();
    let mut store = Bookkeeping::new();
    store.rows.push(AppliedMigration::new(5, vec![1]));

    let report = run(&migrator, &mut store, false, false, None);
    assert_eq!(report.outcome, Outcome::Failed(MigrateError::VersionMissing(5)));
    assert!(report.lines.is_empty());
    assert_eq!(versions(&store), vec![5]);

    let report = revert(&migrator, &mut store, false, false, None);
    assert_eq!(report.outcome, Outcome::Failed(MigrateError::VersionMissing(5)));
    assert!(report.lines.is_empty());
    assert_eq!(versions(&store), vec![5]);
}

fn simple(version: i64) -> Migration {
    script(version, MigrationType::Simple)
}

#[test]
fn dry_run_reports_can_apply_and_changes_nothing() {
    let migrator = two_pairs();
    let mut store = Bookkeeping::new();
    store.apply(migrator.get(0));

    let report = run(&migrator, &mut store, true, false, None);
    assert_eq!(report.outcome, Outcome::Completed);
    assert_eq!(report.lines, vec![Step { index: 2, status: StepStatus::CanApply }]);
    assert_eq!(versions(&store), vec![1]);

    let report = revert(&migrator, &mut store, true, false, None);
    assert_eq!(report.outcome, Outcome::Completed);
    assert_eq!(report.lines, vec![Step { index: 1, status: StepStatus::CanApply }]);
    assert_eq!(versions(&store), vec![1]);
}

#[test]
fn dry_run_with_target_skips_beyond_it() {
    let migrator = two_pairs();
    let mut store = Bookkeeping::new();
    let report = run(&migrator, &mut store, true, false, Some(1));
    assert_eq!(
        report.lines,
        vec![
            Step { index: 0, status: StepStatus::CanApply },
            Step { index: 2, status: StepStatus::Skipped },
        ]
    );
    assert!(store.rows.is_empty());
}

#[test]
fn changed_checksum_stops_run_after_the_lines_before_it() {
    let migrator = Migrator::new(vec![simple(1), simple(2), simple(3)]).unwrap();
    let mut store = Bookkeeping::new();
    store.rows.push(AppliedMigration::new(2, vec![0, 0, 0]));

    let report = run(&migrator, &mut store, false, false, None);
    assert_eq!(report.outcome, Outcome::Failed(MigrateError::VersionMismatch(2)));
    assert_eq!(report.lines, vec![Step { index: 0, status: StepStatus::Applied }]);
    assert_eq!(versions(&store), vec![2, 1]);
}

#[test]
fn changed_checksum_of_first_script_applies_nothing() {
    let migrator = Migrator::new(vec![simple(1), simple(2)]).unwrap();
    let mut store = Bookkeeping::new();
    store.rows.push(AppliedMigration::new(1, vec![]));
    let report = run(&migrator, &mut store, true, false, None);
    assert_eq!(report.outcome, Outcome::Failed(MigrateError::VersionMismatch(1)));
    assert!(report.lines.is_empty());
    assert_eq!(versions(&store), vec![1]);
}

#[test]
fn revert_does_not_compare_checksums() {
    let migrator = two_pairs();
    let mut store = Bookkeeping::new();
    store.rows.push(AppliedMigration::new(1, vec![42]));
    let report = revert(&migrator, &mut store, false, false, None);
    assert_eq!(report.outcome, Outcome::Completed);
    assert_eq!(report.lines, vec![Step { index: 1, status: StepStatus::Applied }]);
    assert!(store.rows.is_empty());
}

#[test]
fn dirty_marker_blocks_run_and_revert() {
    let migrator = two_pairs();
    let mut store = Bookkeeping::new();
    store.apply(migrator.get(0));
    store.dirty = Some(2);

    let report = run(&migrator, &mut store, false, false, None);
    assert_eq!(report.outcome, Outcome::Failed(MigrateError::Dirty(2)));
    assert!(report.lines.is_empty());
    assert_eq!(versions(&store), vec![1]);
    assert_eq!(store.dirty, Some(2));

    let report = revert(&migrator, &mut store, false, false, Some(0));
    assert_eq!(report.outcome, Outcome::Failed(MigrateError::Dirty(2)));
    assert!(report.lines.is_empty());
    assert!(!report.nothing_to_revert);
    assert_eq!(versions(&store), vec![1]);
}

#[test]
fn absent_target_comes_before_the_dirty_marker() {
    let migrator = two_pairs();
    let mut store = Bookkeeping::new();
    store.dirty = Some(1);
    let report = run(&migrator, &mut store, false, false, Some(9));
    assert_eq!(report.outcome, Outcome::Failed(MigrateError::VersionNotPresent(9)));
    let report = revert(&migrator, &mut store, false, false, Some(9));
    assert_eq!(report.outcome, Outcome::Failed(MigrateError::VersionNotPresent(9)));
}

#[test]
fn run_target_older_than_latest_is_refused() {
    let migrator = two_pairs();
    let mut store = Bookkeeping::new();
    run(&migrator, &mut store, false, false, None);
    let report = run(&migrator, &mut store, false, false, Some(1));
    assert_eq!(report.outcome, Outcome::Failed(MigrateError::VersionTooOld(1, 2)));
    assert!(report.lines.is_empty());
    assert_eq!(versions(&store), vec![1, 2]);
}

#[test]
fn run_target_equal_to_latest_has_nothing_to_do() {
    let migrator = two_pairs();
    let mut store = Bookkeeping::new();
    run(&migrator, &mut store, false, false, None);
    let report = run(&migrator, &mut store, false, false, Some(2));
    assert_eq!(report.outcome, Outcome::Completed);
    assert!(report.lines.is_empty());
    assert!(!report.nothing_to_revert);
}

#[test]
fn revert_target_newer_than_latest_is_refused() {
    let migrator = two_pairs();
    let mut store = Bookkeeping::new();
    store.apply(migrator.get(0));
    let report = revert(&migrator, &mut store, false, false, Some(2));
    assert_eq!(report.outcome, Outcome::Failed(MigrateError::VersionTooNew(2, 1)));
    assert!(report.lines.is_empty());
    assert_eq!(versions(&store), vec![1]);
}

#[test]
fn revert_to_zero_reverts_everything() {
    let migrator = two_pairs();
    let mut store = Bookkeeping::new();
    run(&migrator, &mut store, false, false, None);
    let report = revert(&migrator, &mut store, false, false, Some(0));
    assert_eq!(report.outcome, Outcome::Completed);
    assert_eq!(
        report.lines,
        vec![
            Step { index: 3, status: StepStatus::Applied },
            Step { index: 1, status: StepStatus::Applied },
        ]
    );
    assert!(store.rows.is_empty());
}

#[test]
fn revert_to_target_skips_at_and_below_it() {
    let migrator = two_pairs();
    let mut store = Bookkeeping::new();
    run(&migrator, &mut store, false, false, None);
    let report = revert(&migrator, &mut store, false, false, Some(1));
    assert_eq!(
        report.lines,
        vec![
            Step { index: 3, status: StepStatus::Applied },
            Step { index: 1, status: StepStatus::Skipped },
        ]
    );
    assert!(!report.nothing_to_revert);
    assert_eq!(versions(&store), vec![1]);
}

#[test]
fn revert_without_target_takes_only_the_highest() {
    let migrator = Migrator::new(vec![
        script(1, MigrationType::ReversibleUp),
        script(1, MigrationType::ReversibleDown),
        script(2, MigrationType::ReversibleUp),
        script(2, MigrationType::ReversibleDown),
        script(3, MigrationType::ReversibleUp),
        script(3, MigrationType::ReversibleDown),
    ])
    .unwrap();
    let mut store = Bookkeeping::new();
    run(&migrator, &mut store, false, false, None);
    assert_eq!(versions(&store), vec![1, 2, 3]);
    let report = revert(&migrator, &mut store, false, false, None);
    assert_eq!(report.lines, vec![Step { index: 5, status: StepStatus::Applied }]);
    assert_eq!(versions(&store), vec![1, 2]);
}

#[test]
fn simple_scripts_are_never_reverted() {
    let migrator = Migrator::new(vec![simple(1), simple(2)]).unwrap();
    let mut store = Bookkeeping::new();
    run(&migrator, &mut store, false, false, None);
    let report = revert(&migrator, &mut store, false, false, None);
    assert_eq!(report.outcome, Outcome::Completed);
    assert!(report.lines.is_empty());
    assert!(report.nothing_to_revert);
    assert_eq!(versions(&store), vec![1, 2]);
}

#[test]
fn ignore_missing_accepts_unknown_applied_versions() {
    let migrator = two_pairs();
    let mut store = Bookkeeping::new();
    store.rows.push(AppliedMigration::new(5, vec![1]));
    let report = run(&migrator, &mut store, false, true, None);
    assert_eq!(report.outcome, Outcome::Completed);
    assert_eq!(versions(&store), vec![5, 1, 2]);
}

#[test]
fn first_missing_version_is_the_one_reported() {
    let migrator = two_pairs();
    let mut store = Bookkeeping::new();
    store.rows.push(AppliedMigration::new(1, vec![1, 7, 9]));
    store.rows.push(AppliedMigration::new(8, vec![]));
    store.rows.push(AppliedMigration::new(6, vec![]));
    let report = run(&migrator, &mut store, false, false, None);
    assert_eq!(report.outcome, Outcome::Failed(MigrateError::VersionMissing(8)));
}

#[test]
fn run_on_empty_catalog_completes() {
    let migrator = Migrator::new(vec![]).unwrap();
    let mut store = Bookkeeping::new();
    let report = run(&migrator, &mut store, false, false, None);
    assert_eq!(report.outcome, Outcome::Completed);
    assert!(report.lines.is_empty());
    let report = revert(&migrator, &mut store, false, false, None);
    assert!(report.nothing_to_revert);
}

#[test]
fn apply_then_revert_restores_the_rows() {
    let migrator = two_pairs();
    let mut store = Bookkeeping::new();
    store.rows.push(AppliedMigration::new(1, vec![1, 7, 9]));
    let before: Vec<(i64, Vec<u8>)> =
        store.rows.iter().map(|r| (r.version, r.checksum.clone())).collect();

    store.apply(migrator.get(2));
    assert_eq!(versions(&store), vec![1, 2]);
    assert_eq!(store.rows[1].checksum, vec![2, 7, 9]);
    store.revert(migrator.get(3));
    let after: Vec<(i64, Vec<u8>)> =
        store.rows.iter().map(|r| (r.version, r.checksum.clone())).collect();
    assert_eq!(before, after);

    store.apply(migrator.get(2));
    store.revert(migrator.get(3));
    store.revert(migrator.get(3));
    let again: Vec<(i64, Vec<u8>)> =
        store.rows.iter().map(|r| (r.version, r.checksum.clone())).collect();
    assert_eq!(before, again);
}

#[test]
fn table_name_defaults() {
    assert_eq!(DEFAULT_MIGRATION_TABLE, "_sqlx_migrations");
    assert_eq!(table_name(None), "_sqlx_migrations");
    assert_eq!(table_name(Some("history".to_string())), "history");
    assert_eq!(table_name(Some(String::new())), "");
}

#[test]
fn bookkeeping_hands_out_its_rows_and_marker() {
    let migrator = two_pairs();
    let mut store = Bookkeeping::new();
    assert_eq!(store.dirty_version(), None);
    assert!(store.list_applied_migrations().is_empty());
    store.apply(migrator.get(0));
    store.apply(migrator.get(2));
    store.dirty = Some(3);
    assert_eq!(store.dirty_version(), Some(3));
    let rows = store.list_applied_migrations();
    assert_eq!(rows.len(), 2);
    assert_eq!((rows[0].version, rows[0].checksum.clone()), (1, vec![1, 7, 9]));
    assert_eq!((rows[1].version, rows[1].checksum.clone()), (2, vec![2, 7, 9]));
}

#[test]
fn revert_takes_every_row_of_the_version_and_no_other() {
    let migrator = two_pairs();
    let mut store = Bookkeeping::new();
    store.rows.push(AppliedMigration::new(2, vec![1]));
    store.rows.push(AppliedMigration::new(1, vec![2]));
    store.rows.push(AppliedMigration::new(2, vec![3]));
    store.rows.push(AppliedMigration::new(3, vec![4]));
    store.revert(migrator.get(3));
    assert_eq!(versions(&store), vec![1, 3]);
    assert_eq!(store.rows[0].checksum, vec![2]);
    assert_eq!(store.rows[1].checksum, vec![4]);
}

#[test]
fn execute_is_what_run_and_revert_do() {
    let migrator = two_pairs();
    let mut store = Bookkeeping::new();
    let options = Options { dry_run: false, ignore_missing: false, target_version: None };
    let report = execute(Command::Run, &migrator, &mut store, options);
    assert_eq!(report.outcome, Outcome::Completed);
    assert_eq!(versions(&store), vec![1, 2]);
    let report = execute(Command::Revert, &migrator, &mut store, options);
    assert_eq!(report.lines, vec![Step { index: 3, status: StepStatus::Applied }]);
    assert_eq!(versions(&store), vec![1]);
}
