use pg_migrator::catalog::build_catalog;
use pg_migrator::checksum::checksum_str;

fn files(entries: &[(&str, &str)]) -> Vec<(String, String)> {
    entries.iter().map(|(n, s)| (n.to_string(), s.to_string())).collect()
}

#[test]
fn catalog_is_sorted_by_version_string() {
    let listing = files(&[
        ("V3__third.sql", "c"),
        ("V1__first.sql", "a"),
        ("V2__second.sql", "b"),
    ]);
    let catalog = build_catalog(&listing);
    let versions: Vec<&str> = catalog.iter().map(|s| s.version.as_str()).collect();
    assert_eq!(versions, vec!["1", "2", "3"]);
}

#[test]
fn non_matching_entries_are_skipped_not_errored() {
    let listing = files(&[
        ("V1__users.sql", "a"),
        ("notes.txt", "ignored"),
        ("V2__email.sql", "b"),
        ("V__broken.sql", "ignored"),
        ("V3_nope.sql", "ignored"),
    ]);
    let catalog = build_catalog(&listing);
    assert_eq!(catalog.len(), 2);
    assert_eq!(catalog[0].version, "1");
    assert_eq!(catalog[1].version, "2");
}

#[test]
fn scripts_keep_their_content_and_checksum() {
    let listing = files(&[("V001__create_users.sql", "CREATE TABLE users (id INT)")]);
    let catalog = build_catalog(&listing);
    assert_eq!(catalog.len(), 1);
    assert_eq!(catalog[0].version, "001");
    assert_eq!(catalog[0].description, "create_users");
    assert_eq!(catalog[0].sql, "CREATE TABLE users (id INT)");
    assert_eq!(catalog[0].checksum, checksum_str("CREATE TABLE users (id INT)"));
}

#[test]
fn version_order_is_textual_not_numeric() {
    // Callers must zero-pad: without padding, "10" sorts before "2".
    let listing = files(&[("V2__b.sql", "b"), ("V10__a.sql", "a")]);
    let catalog = build_catalog(&listing);
    let versions: Vec<&str> = catalog.iter().map(|s| s.version.as_str()).collect();
    assert_eq!(versions, vec!["10", "2"]);
}

#[test]
fn empty_listing_yields_empty_catalog() {
    let catalog = build_catalog(&files(&[]));
    assert!(catalog.is_empty());
}

#[test]
fn equal_versions_are_both_kept() {
    let listing = files(&[("V1__a.sql", "a"), ("V1__b.sql", "b")]);
    let catalog = build_catalog(&listing);
    assert_eq!(catalog.len(), 2);
    assert_eq!(catalog[0].version, "1");
    assert_eq!(catalog[1].version, "1");
}
