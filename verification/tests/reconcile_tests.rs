use pg_migrator::catalog::build_catalog;
use pg_migrator::catalog::MigrationScript;
use pg_migrator::checksum::checksum_str;
use pg_migrator::error::MigrationError;
use pg_migrator::reconcile::history_record_for;
use pg_migrator::reconcile::plan_run;
use pg_migrator::reconcile::validate_applied;
use pg_migrator::reconcile::HistoryRecord;
use pg_migrator::reconcile::MigrationRun;

fn files(entries: &[(&str, &str)]) -> Vec<(String, String)> {
    entries.iter().map(|(n, s)| (n.to_string(), s.to_string())).collect()
}

fn two_script_catalog() -> Vec<MigrationScript> {
    build_catalog(&files(&[
        ("V001__create_users.sql", "CREATE TABLE users (id INT)"),
        ("V002__add_email.sql", "ALTER TABLE users ADD email TEXT"),
    ]))
}

fn applied_records(catalog: &[MigrationScript]) -> Vec<HistoryRecord> {
    catalog.iter().enumerate().map(|(i, s)| history_record_for(s, i as i64)).collect()
}

#[test]
fn fresh_history_leaves_everything_pending() {
    let catalog = two_script_catalog();
    let pending = plan_run(&catalog, &vec![], false).expect("empty history should validate");
    assert_eq!(pending.len(), 2);
    assert_eq!(pending[0].version, "001");
    assert_eq!(pending[1].version, "002");
}

#[test]
fn second_run_applies_nothing() {
    let catalog = two_script_catalog();
    let records = applied_records(&catalog);
    let pending = plan_run(&catalog, &records, false).expect("clean history should validate");
    assert!(pending.is_empty());
}

#[test]
fn full_scenario_two_scripts_then_noop() {
    // First run: both scripts come out in order and yield their history rows.
    let catalog = two_script_catalog();
    let c1 = checksum_str("CREATE TABLE users (id INT)");
    let c2 = checksum_str("ALTER TABLE users ADD email TEXT");
    let pending = plan_run(&catalog, &vec![], false).expect("first run should validate");
    let mut run = MigrationRun::start(pending);
    let mut history: Vec<HistoryRecord> = Vec::new();
    while let Some(script) = run.current() {
        let row = history_record_for(script, history.len() as i64);
        history.push(row);
        run.advance();
    }
    assert_eq!(history.len(), 2);
    assert_eq!(history[0].version, "001");
    assert_eq!(history[0].checksum, c1);
    assert_eq!(history[1].version, "002");
    assert_eq!(history[1].checksum, c2);

    // Second run against that history: zero scripts to execute.
    let pending = plan_run(&catalog, &history, false).expect("second run should validate");
    assert!(pending.is_empty());
}

#[test]
fn edited_script_fails_with_checksum_mismatch() {
    let catalog = two_script_catalog();
    let records = applied_records(&catalog);
    // The first script's file changes after it was applied.
    let edited = build_catalog(&files(&[
        ("V001__create_users.sql", "CREATE TABLE users (id BIGINT)"),
        ("V002__add_email.sql", "ALTER TABLE users ADD email TEXT"),
    ]));
    match plan_run(&edited, &records, false) {
        Err(MigrationError::ChecksumMismatch { version }) => assert_eq!(version, "001"),
        other => panic!("expected a checksum mismatch, got {:?}", other.map(|p| p.len())),
    }
}

#[test]
fn orphan_history_row_fails_with_missing_migration() {
    let catalog = two_script_catalog();
    let mut records = applied_records(&catalog);
    records.push(HistoryRecord {
        version: "003".to_string(),
        description: "dropped".to_string(),
        sql: "DROP TABLE old".to_string(),
        applied_at: 9,
        checksum: checksum_str("DROP TABLE old"),
    });
    match plan_run(&catalog, &records, false) {
        Err(MigrationError::MissingMigration { version }) => assert_eq!(version, "003"),
        other => panic!("expected a missing migration, got {:?}", other.map(|p| p.len())),
    }
}

#[test]
fn orphan_history_row_is_tolerated_when_configured() {
    let catalog = two_script_catalog();
    let mut records = applied_records(&catalog);
    records.push(HistoryRecord {
        version: "003".to_string(),
        description: "dropped".to_string(),
        sql: "DROP TABLE old".to_string(),
        applied_at: 9,
        checksum: checksum_str("DROP TABLE old"),
    });
    let pending = plan_run(&catalog, &records, true).expect("orphans should be tolerated");
    assert!(pending.is_empty());
}

#[test]
fn validation_reports_applied_versions_in_fetch_order() {
    let catalog = two_script_catalog();
    let mut records = applied_records(&catalog);
    records.reverse();
    let applied =
        validate_applied(&catalog, &records, false).expect("clean history should validate");
    assert_eq!(applied, vec!["002".to_string(), "001".to_string()]);
}

#[test]
fn partially_applied_catalog_yields_the_rest_in_order() {
    let catalog = two_script_catalog();
    let records = vec![history_record_for(&catalog[0], 0)];
    let pending = plan_run(&catalog, &records, false).expect("clean history should validate");
    assert_eq!(pending.len(), 1);
    assert_eq!(pending[0].version, "002");
}

#[test]
fn gaps_are_allowed() {
    // The second script is applied, the first is not: no error, the first
    // is simply still pending.
    let catalog = two_script_catalog();
    let records = vec![history_record_for(&catalog[1], 0)];
    let pending = plan_run(&catalog, &records, false).expect("gaps are not drift");
    assert_eq!(pending.len(), 1);
    assert_eq!(pending[0].version, "001");
}

#[test]
fn a_failed_script_ends_the_run() {
    let catalog = two_script_catalog();
    let pending = plan_run(&catalog, &vec![], false).expect("empty history should validate");
    let mut run = MigrationRun::start(pending);
    let first = run.current().expect("first script should be offered");
    assert_eq!(first.version, "001");
    let err = run.fail("relation already exists".to_string());
    match err {
        MigrationError::Apply { version, message } => {
            assert_eq!(version, "001");
            assert_eq!(message, "relation already exists");
        },
        other => panic!("expected an apply error, got {:?}", other),
    }
    // No later script is attempted.
    assert!(run.current().is_none());
}

#[test]
fn history_rows_snapshot_the_script() {
    let catalog = two_script_catalog();
    let row = history_record_for(&catalog[0], 1700000000);
    assert_eq!(row.version, "001");
    assert_eq!(row.description, "create_users");
    assert_eq!(row.sql, "CREATE TABLE users (id INT)");
    assert_eq!(row.applied_at, 1700000000);
    assert_eq!(row.checksum, checksum_str("CREATE TABLE users (id INT)"));
}
