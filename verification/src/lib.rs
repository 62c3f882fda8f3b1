//! A migration engine for a relational database: it discovers version-named
//! SQL scripts, detects drift between the scripts on disk and the history
//! recorded in the database, and plans the transactional application of
//! whatever is still pending — each script exactly once, in ascending
//! version order.
//!
//! The engine itself is pure: discovery works on (filename, content) pairs,
//! validation on fetched history rows, and the apply pass is a small state
//! machine that hands out pending scripts one at a time. A thin driver that
//! owns the database connection performs the I/O around it.

pub mod catalog;
pub mod checksum;
pub mod error;
pub mod filename;
pub mod laws;
pub mod reconcile;
pub mod sql;
pub mod text;

use vstd::prelude::*;

use crate::error::MigrationError;

verus! {

/// Configuration for one migrator: where the scripts live, which table keeps
/// the history, and whether history rows without a matching script are
/// tolerated. Built fluently, then handed to the driver that owns the
/// database connection.
pub struct PostgresMigrator {
    pub migrations_path: String,
    pub migrations_table: String,
    pub ignore_missing_migrations: bool,
}

impl PostgresMigrator {
    /// A migrator over the given directory, recording history in the default
    /// `__migrations` table and rejecting orphan history rows.
    pub fn new(migrations_path: String) -> (r: Self)
        ensures
            r.migrations_path@ == migrations_path@,
            r.migrations_table@ == "__migrations"@,
            !r.ignore_missing_migrations,
    {
        Self {
            migrations_path,
            migrations_table: String::from_str("__migrations"),
            ignore_missing_migrations: false,
        }
    }

    /// Record history in `migrations_table` instead of the default table.
    pub fn migrations_table(self, migrations_table: String) -> (r: Self)
        ensures
            r.migrations_path@ == self.migrations_path@,
            r.migrations_table@ == migrations_table@,
            r.ignore_missing_migrations == self.ignore_missing_migrations,
    {
        Self { migrations_table, ..self }
    }

    /// Accept history rows whose version has no matching script, instead of
    /// failing the run with a missing-migration error.
    pub fn ignore_missing_migrations(self, ignore_missing: bool) -> (r: Self)
        ensures
            r.migrations_path@ == self.migrations_path@,
            r.migrations_table@ == self.migrations_table@,
            r.ignore_missing_migrations == ignore_missing,
    {
        Self { ignore_missing_migrations: ignore_missing, ..self }
    }
}

} // verus!
