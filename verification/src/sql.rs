use vstd::prelude::*;
use vstd::string::StringExecFns;

verus! {

/// The DDL that creates the history table if it is absent, with version as
/// the primary key: idempotent, safe to issue on every run.
pub fn create_history_table_sql(table: &str) -> (r: String)
    ensures
        r@ == "CREATE TABLE IF NOT EXISTS "@ + table@
            + " (version VARCHAR(255) PRIMARY KEY, description VARCHAR(255) NOT NULL, sql TEXT NOT NULL, applied_at TIMESTAMP WITH TIME ZONE NOT NULL, checksum VARCHAR(255) NOT NULL)"@,
{
    String::from_str("CREATE TABLE IF NOT EXISTS ").concat(table).concat(
        " (version VARCHAR(255) PRIMARY KEY, description VARCHAR(255) NOT NULL, sql TEXT NOT NULL, applied_at TIMESTAMP WITH TIME ZONE NOT NULL, checksum VARCHAR(255) NOT NULL)",
    )
}

/// The query that fetches every history row; the engine puts no weight on
/// the row order.
pub fn select_history_sql(table: &str) -> (r: String)
    ensures
        r@ == "SELECT * FROM "@ + table@,
{
    String::from_str("SELECT * FROM ").concat(table)
}

/// The parameterized insert of one history row, in the column order
/// (version, description, sql, applied_at, checksum).
pub fn insert_history_sql(table: &str) -> (r: String)
    ensures
        r@ == "INSERT INTO "@ + table@
            + " (version, description, sql, applied_at, checksum) VALUES ($1, $2, $3, $4, $5)"@,
{
    String::from_str("INSERT INTO ").concat(table).concat(
        " (version, description, sql, applied_at, checksum) VALUES ($1, $2, $3, $4, $5)",
    )
}

} // verus!
