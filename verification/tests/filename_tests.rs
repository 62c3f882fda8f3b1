use pg_migrator::filename::parse_migration_filename;

#[test]
fn parses_simple_migration_name() {
    let r = parse_migration_filename("V001__create_users.sql");
    let (version, description) = r.expect("name should parse");
    assert_eq!(version, "001");
    assert_eq!(description, "create_users");
}

#[test]
fn parses_upper_case_description() {
    let r = parse_migration_filename("V001__CREATE_USERS_TABLE.sql");
    let (version, description) = r.expect("name should parse");
    assert_eq!(version, "001");
    assert_eq!(description, "CREATE_USERS_TABLE");
}

#[test]
fn parses_long_version_run() {
    let r = parse_migration_filename("V20240101__seed.sql");
    let (version, description) = r.expect("name should parse");
    assert_eq!(version, "20240101");
    assert_eq!(description, "seed");
}

#[test]
fn description_keeps_inner_dots() {
    let r = parse_migration_filename("V2__a.b.sql");
    let (version, description) = r.expect("name should parse");
    assert_eq!(version, "2");
    assert_eq!(description, "a.b");
}

#[test]
fn description_may_contain_underscores() {
    let r = parse_migration_filename("V7__add__index.sql");
    let (version, description) = r.expect("name should parse");
    assert_eq!(version, "7");
    assert_eq!(description, "add__index");
}

#[test]
fn rejects_names_without_prefix() {
    assert!(parse_migration_filename("001__create_users.sql").is_none());
    assert!(parse_migration_filename("readme.md").is_none());
    assert!(parse_migration_filename("create_users.sql").is_none());
}

#[test]
fn rejects_missing_version_digits() {
    assert!(parse_migration_filename("V__create_users.sql").is_none());
}

#[test]
fn rejects_single_underscore_separator() {
    assert!(parse_migration_filename("V1_create_users.sql").is_none());
}

#[test]
fn rejects_empty_description() {
    assert!(parse_migration_filename("V1__.sql").is_none());
}

#[test]
fn rejects_missing_sql_suffix() {
    assert!(parse_migration_filename("V1__create_users.txt").is_none());
    assert!(parse_migration_filename("V1__create_users").is_none());
    assert!(parse_migration_filename("V1__create_users.sql.bak").is_none());
}

#[test]
fn rejects_non_digit_in_version_run() {
    assert!(parse_migration_filename("V1a__create_users.sql").is_none());
}

#[test]
fn rejects_empty_name() {
    assert!(parse_migration_filename("").is_none());
}

#[test]
fn parses_non_ascii_description() {
    let r = parse_migration_filename("V3__caf\u{e9}.sql");
    let (version, description) = r.expect("name should parse");
    assert_eq!(version, "3");
    assert_eq!(description, "caf\u{e9}");
}
