use pg_migrator::error::MigrationError;
use pg_migrator::sql::create_history_table_sql;
use pg_migrator::sql::insert_history_sql;
use pg_migrator::sql::select_history_sql;
use pg_migrator::PostgresMigrator;

#[test]
fn migrator_defaults() {
    let m = PostgresMigrator::new("./migrations".to_string());
    assert_eq!(m.migrations_path, "./migrations");
    assert_eq!(m.migrations_table, "__migrations");
    assert!(!m.ignore_missing_migrations);
}

#[test]
fn migrator_is_configured_fluently() {
    let m = PostgresMigrator::new("./migrations".to_string())
        .migrations_table("schema_history".to_string())
        .ignore_missing_migrations(true);
    assert_eq!(m.migrations_path, "./migrations");
    assert_eq!(m.migrations_table, "schema_history");
    assert!(m.ignore_missing_migrations);
}

#[test]
fn history_table_statements_use_the_configured_table() {
    assert_eq!(
        create_history_table_sql("__migrations"),
        "CREATE TABLE IF NOT EXISTS __migrations (version VARCHAR(255) PRIMARY KEY, \
         description VARCHAR(255) NOT NULL, sql TEXT NOT NULL, \
         applied_at TIMESTAMP WITH TIME ZONE NOT NULL, checksum VARCHAR(255) NOT NULL)"
    );
    assert_eq!(select_history_sql("schema_history"), "SELECT * FROM schema_history");
    assert_eq!(
        insert_history_sql("__migrations"),
        "INSERT INTO __migrations (version, description, sql, applied_at, checksum) \
         VALUES ($1, $2, $3, $4, $5)"
    );
}

#[test]
fn error_messages_name_the_version() {
    let e = MigrationError::MissingMigration { version: "004".to_string() };
    assert_eq!(e.message(), "migration 004 not found");
    let e = MigrationError::ChecksumMismatch { version: "002".to_string() };
    assert_eq!(e.message(), "checksum mismatch for migration 002");
    let e = MigrationError::Apply {
        version: "003".to_string(),
        message: "syntax error".to_string(),
    };
    assert_eq!(e.message(), "failed to apply migration 003: syntax error");
}

#[test]
fn wrapper_error_messages_carry_the_cause() {
    let e = MigrationError::Io { message: "permission denied".to_string() };
    assert_eq!(e.message(), "io error: permission denied");
    let e = MigrationError::Parse { message: "bad pattern".to_string() };
    assert_eq!(e.message(), "pattern error: bad pattern");
    let e = MigrationError::Database { message: "connection reset".to_string() };
    assert_eq!(e.message(), "database error: connection reset");
}
