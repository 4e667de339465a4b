use sqlx_migrate::migration::Migration;
use sqlx_migrate::migration_type::MigrationType;
use sqlx_migrate::migrator::Migrator;
use sqlx_migrate::ordering::MigrationOrdering;
use sqlx_migrate::plan::StepStatus;
use sqlx_migrate::scaffold::{add, build_script_check, files_for, BuildScriptError};
use sqlx_migrate::text::{file_name, replace_spaces, short_checksum, zero_padded};

fn catalog(entries: &[(i64, MigrationType)]) -> Migrator {
    Migrator::new(
        entries
            .iter()
            .map(|(v, t)| Migration::new(*v, String::new(), *t, String::new(), vec![]))
            .collect(),
    )
    .unwrap()
}

fn sequential_prefix(o: &MigrationOrdering) -> Option<String> {
    match o {
        MigrationOrdering::Sequential(p) => Some(p.clone()),
        MigrationOrdering::Timestamp(_) => None,
    }
}

#[test]
fn short_checksum_writes_two_digits_per_byte() {
    assert_eq!(short_checksum(&[]), "");
    assert_eq!(short_checksum(&[0x00, 0x0f, 0xab, 0xff]), "000fabff");
    assert_eq!(short_checksum(&[0x10, 0x9a, 0x01]), "109a01");
}

#[test]
fn short_checksum_agrees_with_std_on_every_byte() {
    for b in 0..=255u8 {
        assert_eq!(short_checksum(&[b]), format!("{b:02x}"));
    }
}

#[test]
fn zero_padded_fills_to_four_characters() {
    assert_eq!(zero_padded(0), "0000");
    assert_eq!(zero_padded(1), "0001");
    assert_eq!(zero_padded(42), "0042");
    assert_eq!(zero_padded(999), "0999");
    assert_eq!(zero_padded(1000), "1000");
    assert_eq!(zero_padded(12345), "12345");
    assert_eq!(zero_padded(20240131120000), "20240131120000");
    assert_eq!(zero_padded(-5), "-005");
    assert_eq!(zero_padded(-123), "-123");
    assert_eq!(zero_padded(-1234), "-1234");
    assert_eq!(zero_padded(i64::MAX), "9223372036854775807");
    assert_eq!(zero_padded(i64::MIN), "-9223372036854775808");
}

#[test]
fn zero_padded_agrees_with_std() {
    for v in -1100i64..=11000 {
        assert_eq!(zero_padded(v), format!("{v:04}"));
    }
}

#[test]
fn sequential_ordering_has_padded_prefix() {
    let o = MigrationOrdering::sequential(7);
    assert_eq!(o.file_prefix(), "0007");
    assert!(matches!(o, MigrationOrdering::Sequential(_)));
}

#[test]
fn file_prefix_of_both_orderings() {
    assert_eq!(MigrationOrdering::Timestamp("20240131120000".to_string()).file_prefix(), "20240131120000");
    assert_eq!(MigrationOrdering::Sequential("0003".to_string()).file_prefix(), "0003");
}

#[test]
fn timestamp_ordering_shows_the_clock() {
    let before = chrono::Utc::now().format("%Y%m%d%H%M%S").to_string();
    let o = MigrationOrdering::timestamp();
    let after = chrono::Utc::now().format("%Y%m%d%H%M%S").to_string();
    assert!(matches!(o, MigrationOrdering::Timestamp(_)));
    let prefix = o.file_prefix().to_string();
    assert_eq!(prefix.len(), 14);
    assert!(prefix.chars().all(|c| c.is_ascii_digit()));
    assert!(before <= prefix && prefix <= after);
}

#[test]
fn inference_continues_a_sequence() {
    let c = catalog(&[(1, MigrationType::Simple), (2, MigrationType::Simple)]);
    let o = MigrationOrdering::infer(false, false, &c);
    assert_eq!(sequential_prefix(&o), Some("0003".to_string()));
    assert_eq!(MigrationOrdering::next_version(false, false, &c), Some(3));
}

#[test]
fn inference_looks_at_the_last_two_only() {
    let c = catalog(&[
        (1, MigrationType::Simple),
        (5, MigrationType::Simple),
        (6, MigrationType::Simple),
    ]);
    assert_eq!(MigrationOrdering::next_version(false, false, &c), Some(7));
    let c = catalog(&[
        (1, MigrationType::Simple),
        (2, MigrationType::Simple),
        (6, MigrationType::Simple),
    ]);
    assert_eq!(MigrationOrdering::next_version(false, false, &c), None);
}

#[test]
fn inference_takes_the_time_for_gaps() {
    let c = catalog(&[(1, MigrationType::Simple), (3, MigrationType::Simple)]);
    let o = MigrationOrdering::infer(false, false, &c);
    assert!(matches!(o, MigrationOrdering::Timestamp(_)));
    assert_eq!(o.file_prefix().len(), 14);
    assert!(o.file_prefix().chars().all(|c| c.is_ascii_digit()));
}

#[test]
fn inference_passes_over_down_scripts() {
    let c = catalog(&[
        (1, MigrationType::ReversibleUp),
        (1, MigrationType::ReversibleDown),
        (2, MigrationType::ReversibleUp),
        (2, MigrationType::ReversibleDown),
    ]);
    assert_eq!(MigrationOrdering::next_version(false, false, &c), Some(3));
    let c = catalog(&[(1, MigrationType::ReversibleDown), (2, MigrationType::ReversibleDown)]);
    assert_eq!(MigrationOrdering::next_version(false, false, &c), None);
}

#[test]
fn inference_from_a_single_script() {
    let c = catalog(&[(0, MigrationType::Simple)]);
    assert_eq!(MigrationOrdering::next_version(false, false, &c), Some(1));
    let c = catalog(&[(1, MigrationType::Simple)]);
    assert_eq!(MigrationOrdering::next_version(false, false, &c), Some(2));
    let c = catalog(&[(2, MigrationType::Simple)]);
    assert_eq!(MigrationOrdering::next_version(false, false, &c), None);
    let c = catalog(&[(20240131120000, MigrationType::Simple)]);
    assert_eq!(MigrationOrdering::next_version(false, false, &c), None);
    let c = catalog(&[(1, MigrationType::ReversibleUp), (1, MigrationType::ReversibleDown)]);
    assert_eq!(MigrationOrdering::next_version(false, false, &c), Some(2));
}

#[test]
fn inference_on_an_empty_catalog_takes_the_time() {
    let c = catalog(&[]);
    assert_eq!(MigrationOrdering::next_version(false, false, &c), None);
    assert!(matches!(MigrationOrdering::infer(false, false, &c), MigrationOrdering::Timestamp(_)));
}

#[test]
fn inference_does_not_overflow_on_far_apart_versions() {
    let c = catalog(&[(i64::MIN, MigrationType::Simple), (i64::MAX, MigrationType::Simple)]);
    assert_eq!(MigrationOrdering::next_version(false, false, &c), None);
}

#[test]
fn explicit_sequential_follows_the_last_script() {
    let c = catalog(&[]);
    assert_eq!(MigrationOrdering::next_version(true, false, &c), Some(1));
    assert_eq!(sequential_prefix(&MigrationOrdering::infer(true, false, &c)), Some("0001".to_string()));
    let c = catalog(&[(3, MigrationType::Simple), (20, MigrationType::ReversibleDown)]);
    assert_eq!(MigrationOrdering::next_version(true, false, &c), Some(21));
    assert_eq!(sequential_prefix(&MigrationOrdering::infer(true, false, &c)), Some("0021".to_string()));
}

#[test]
fn explicit_timestamp_wins_over_a_sequence() {
    let c = catalog(&[(1, MigrationType::Simple), (2, MigrationType::Simple)]);
    assert_eq!(MigrationOrdering::next_version(false, true, &c), None);
    assert!(matches!(MigrationOrdering::infer(false, true, &c), MigrationOrdering::Timestamp(_)));
}

#[test]
fn infer_at_takes_the_given_time() {
    let c = catalog(&[(1, MigrationType::Simple), (3, MigrationType::Simple)]);
    let o = MigrationOrdering::infer_at(false, false, &c, "20200102030405".to_string());
    assert_eq!(o.file_prefix(), "20200102030405");
    assert!(matches!(o, MigrationOrdering::Timestamp(_)));
    let c = catalog(&[(1, MigrationType::Simple), (2, MigrationType::Simple)]);
    let o = MigrationOrdering::infer_at(false, false, &c, "20200102030405".to_string());
    assert_eq!(o.file_prefix(), "0003");
}

#[test]
fn replace_spaces_puts_underscores() {
    assert_eq!(replace_spaces(""), "");
    assert_eq!(replace_spaces("create users table"), "create_users_table");
    assert_eq!(replace_spaces(" a  b "), "_a__b_");
    assert_eq!(replace_spaces("no_space"), "no_space");
    assert_eq!(replace_spaces("caf\u{e9} cr\u{e8}me"), "caf\u{e9}_cr\u{e8}me");
}

#[test]
fn file_name_is_prefix_description_suffix() {
    assert_eq!(
        file_name("0001", "create users table", ".up.sql"),
        "0001_create_users_table.up.sql"
    );
    assert_eq!(file_name("20240131120000", "init", ".sql"), "20240131120000_init.sql");
    assert_eq!(file_name("", "", ""), "_");
}

#[test]
fn kinds_have_their_words() {
    assert_eq!(MigrationType::Simple.label(), "migrate");
    assert_eq!(MigrationType::ReversibleUp.label(), "migrate");
    assert_eq!(MigrationType::ReversibleDown.label(), "revert");
    assert_eq!(MigrationType::Simple.suffix(), ".sql");
    assert_eq!(MigrationType::ReversibleUp.suffix(), ".up.sql");
    assert_eq!(MigrationType::ReversibleDown.suffix(), ".down.sql");
    assert_eq!(MigrationType::Simple.file_content(), "-- Add migration script here\n");
    assert_eq!(MigrationType::ReversibleUp.file_content(), "-- Add up migration script here\n");
    assert_eq!(
        MigrationType::ReversibleDown.file_content(),
        "-- Add down migration script here\n"
    );
    assert!(MigrationType::Simple.is_up_migration());
    assert!(MigrationType::ReversibleUp.is_up_migration());
    assert!(!MigrationType::ReversibleDown.is_up_migration());
    assert!(MigrationType::ReversibleDown.is_down_migration());
    assert!(!MigrationType::Simple.is_down_migration());
    assert!(!MigrationType::Simple.is_reversible());
    assert!(MigrationType::ReversibleUp.is_reversible());
    assert!(MigrationType::ReversibleDown.is_reversible());
}

#[test]
fn step_status_words() {
    assert_eq!(StepStatus::Skipped.text(), "Skipped");
    assert_eq!(StepStatus::CanApply.text(), "Can apply");
    assert_eq!(StepStatus::Applied.text(), "Applied");
}

#[test]
fn kind_of_the_next_script_follows_the_first() {
    let c = catalog(&[]);
    assert_eq!(MigrationType::infer(&c, true), MigrationType::ReversibleUp);
    assert_eq!(MigrationType::infer(&c, false), MigrationType::Simple);
    let c = catalog(&[(1, MigrationType::Simple)]);
    assert_eq!(MigrationType::infer(&c, true), MigrationType::Simple);
    let c = catalog(&[(1, MigrationType::ReversibleUp), (1, MigrationType::ReversibleDown)]);
    assert_eq!(MigrationType::infer(&c, false), MigrationType::ReversibleUp);
}

#[test]
fn files_of_a_reversible_migration_share_the_prefix() {
    let o = MigrationOrdering::sequential(3);
    let files = files_for("add index", MigrationType::ReversibleUp, &o);
    assert_eq!(files.len(), 2);
    assert_eq!(files[0].name, "0003_add_index.up.sql");
    assert_eq!(files[0].migration_type, MigrationType::ReversibleUp);
    assert_eq!(files[1].name, "0003_add_index.down.sql");
    assert_eq!(files[1].migration_type, MigrationType::ReversibleDown);
    let files = files_for("add index", MigrationType::ReversibleDown, &o);
    assert_eq!(files.len(), 2);
    assert_eq!(files[0].name, "0003_add_index.up.sql");
}

#[test]
fn file_of_a_simple_migration() {
    let o = MigrationOrdering::Timestamp("20240131120000".to_string());
    let files = files_for("first one", MigrationType::Simple, &o);
    assert_eq!(files.len(), 1);
    assert_eq!(files[0].name, "20240131120000_first_one.sql");
    assert_eq!(files[0].migration_type, MigrationType::Simple);
}

#[test]
fn add_names_the_next_files() {
    let c = catalog(&[(1, MigrationType::ReversibleUp), (1, MigrationType::ReversibleDown)]);
    let files = add(&c, "second step", false, false, false);
    assert_eq!(files.len(), 2);
    assert_eq!(files[0].name, "0002_second_step.up.sql");
    assert_eq!(files[1].name, "0002_second_step.down.sql");

    let c = catalog(&[]);
    let files = add(&c, "first", false, true, false);
    assert_eq!(files.len(), 1);
    assert_eq!(files[0].name, "0001_first.sql");

    let files = add(&c, "first", true, false, false);
    assert_eq!(files.len(), 2);
    assert!(files[0].name.ends_with("_first.up.sql"));
    assert!(files[1].name.ends_with("_first.down.sql"));
    assert_eq!(files[0].name.len(), 14 + "_first.up.sql".len());
    assert!(files[0].name[..14].chars().all(|c| c.is_ascii_digit()));
    assert_eq!(files[0].name[..14], files[1].name[..14]);
}

#[test]
fn build_script_needs_a_project_and_no_script_in_the_way() {
    assert_eq!(build_script_check(true, false, false), Ok(()));
    assert_eq!(build_script_check(true, false, true), Ok(()));
    assert_eq!(build_script_check(true, true, true), Ok(()));
    assert_eq!(build_script_check(true, true, false), Err(BuildScriptError::AlreadyExists));
    assert_eq!(build_script_check(false, false, false), Err(BuildScriptError::NotProjectRoot));
    assert_eq!(build_script_check(false, true, false), Err(BuildScriptError::NotProjectRoot));
    assert_eq!(build_script_check(false, true, true), Err(BuildScriptError::NotProjectRoot));
}

#[test]
fn sequence_fits_unless_the_greatest_version_is_taken() {
    let c = catalog(&[(1, MigrationType::Simple), (2, MigrationType::Simple)]);
    assert!(MigrationOrdering::sequence_fits(false, false, &c));
    assert!(MigrationOrdering::sequence_fits(true, false, &c));
    assert!(MigrationOrdering::sequence_fits(false, true, &c));

    let c = catalog(&[(i64::MAX - 1, MigrationType::Simple), (i64::MAX, MigrationType::Simple)]);
    assert!(!MigrationOrdering::sequence_fits(false, false, &c));
    assert!(!MigrationOrdering::sequence_fits(true, false, &c));
    assert!(MigrationOrdering::sequence_fits(false, true, &c));

    let c = catalog(&[(5, MigrationType::Simple), (i64::MAX, MigrationType::Simple)]);
    assert!(MigrationOrdering::sequence_fits(false, false, &c));
    assert!(!MigrationOrdering::sequence_fits(true, false, &c));

    let c = catalog(&[(i64::MAX, MigrationType::Simple)]);
    assert!(MigrationOrdering::sequence_fits(false, false, &c));
    assert_eq!(MigrationOrdering::next_version(false, false, &c), None);

    let c = catalog(&[]);
    assert!(MigrationOrdering::sequence_fits(true, false, &c));
    assert!(MigrationOrdering::sequence_fits(false, false, &c));
}

#[test]
fn greatest_version_that_still_fits() {
    let c = catalog(&[(i64::MAX - 2, MigrationType::Simple), (i64::MAX - 1, MigrationType::Simple)]);
    assert!(MigrationOrdering::sequence_fits(false, false, &c));
    assert_eq!(MigrationOrdering::next_version(false, false, &c), Some(i64::MAX));
    assert_eq!(
        MigrationOrdering::infer(false, false, &c).file_prefix(),
        "9223372036854775807"
    );
}
