use pg_migrator::checksum::checksum_bytes;
use pg_migrator::checksum::checksum_from_hex;
use pg_migrator::checksum::checksum_str;
use pg_migrator::checksum::checksum_to_hex;
use pg_migrator::checksum::CHECKSUM_PRIME;
use pg_migrator::checksum::CHECKSUM_SEED;

#[test]
fn empty_input_yields_the_seed() {
    assert_eq!(checksum_bytes(&[]), CHECKSUM_SEED);
    assert_eq!(checksum_str(""), CHECKSUM_SEED);
}

#[test]
fn single_byte_folds_once() {
    let expected = (CHECKSUM_SEED ^ 0x61).wrapping_mul(CHECKSUM_PRIME);
    assert_eq!(checksum_bytes(&[0x61]), expected);
    assert_eq!(checksum_str("a"), expected);
}

#[test]
fn known_fnv1a_value() {
    assert_eq!(checksum_str("a"), 0xaf63dc4c8601ec8c);
}

#[test]
fn str_checksum_matches_byte_checksum() {
    let text = "CREATE TABLE users (id BIGINT PRIMARY KEY)";
    assert_eq!(checksum_str(text), checksum_bytes(text.as_bytes()));
}

#[test]
fn checksum_is_deterministic() {
    let text = "INSERT INTO t VALUES (1)";
    assert_eq!(checksum_str(text), checksum_str(text));
}

#[test]
fn edited_text_changes_the_checksum() {
    assert_ne!(
        checksum_str("CREATE TABLE users (id BIGINT)"),
        checksum_str("CREATE TABLE users (id BIGINT);")
    );
}

#[test]
fn byte_order_matters() {
    assert_ne!(checksum_bytes(&[1, 2]), checksum_bytes(&[2, 1]));
}

#[test]
fn hex_rendering_matches_the_standard_form() {
    assert_eq!(checksum_to_hex(0), "0");
    assert_eq!(checksum_to_hex(10), "a");
    assert_eq!(checksum_to_hex(255), "ff");
    assert_eq!(checksum_to_hex(0xdeadbeef), "deadbeef");
    assert_eq!(checksum_to_hex(u64::MAX), "ffffffffffffffff");
}

#[test]
fn hex_parsing_reads_stored_checksums_back() {
    assert_eq!(checksum_from_hex("0"), Some(0));
    assert_eq!(checksum_from_hex("ff"), Some(255));
    assert_eq!(checksum_from_hex("00ff"), Some(255));
    assert_eq!(checksum_from_hex("DEADBEEF"), Some(0xdeadbeef));
    assert_eq!(checksum_from_hex("ffffffffffffffff"), Some(u64::MAX));
}

#[test]
fn hex_parsing_rejects_non_checksums() {
    assert_eq!(checksum_from_hex(""), None);
    assert_eq!(checksum_from_hex("xyz"), None);
    assert_eq!(checksum_from_hex("12g4"), None);
    assert_eq!(checksum_from_hex("0x12"), None);
    assert_eq!(checksum_from_hex("10000000000000000"), None);
}

#[test]
fn hex_round_trip_preserves_the_checksum() {
    for &n in &[0u64, 1, 15, 16, 0xcbf29ce484222325, u64::MAX] {
        assert_eq!(checksum_from_hex(&checksum_to_hex(n)), Some(n));
    }
}
