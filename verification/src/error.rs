use vstd::prelude::*;

verus! {

/// One failure of a migration run.
///
/// Every error aborts the whole run immediately: nothing is retried, no
/// partial success is reported, and no later script is attempted. The
/// variants that concern a single script carry its version so that the
/// caller can diagnose the failure without re-deriving state.
#[derive(Debug)]
pub enum MigrationError {
    /// The migrations directory could not be listed or a file could not be read.
    Io { message: String },
    /// The filename pattern itself is malformed. With the fixed pattern used
    /// here this is a programmer error and effectively unreachable.
    Parse { message: String },
    /// The underlying database driver reported a failure.
    Database { message: String },
    /// The history table holds a version with no matching script in the catalog.
    MissingMigration { version: String },
    /// An already-applied script's content changed after it was applied.
    ChecksumMismatch { version: String },
    /// Executing or recording one pending script failed; its transaction is
    /// abandoned and the run stops.
    Apply { version: String, message: String },
}

impl MigrationError {
    /// Render the error as one line of text.
    pub fn message(&self) -> (r: String)
        ensures
            (match self {
                MigrationError::Io { message } => r@ == "io error: "@ + message@,
                MigrationError::Parse { message } => r@ == "pattern error: "@ + message@,
                MigrationError::Database { message } => r@ == "database error: "@ + message@,
                MigrationError::MissingMigration { version } => r@ == "migration "@ + version@
                    + " not found"@,
                MigrationError::ChecksumMismatch { version } => r@
                    == "checksum mismatch for migration "@ + version@,
                MigrationError::Apply { version, message } => r@ == "failed to apply migration "@
                    + version@ + ": "@ + message@,
            }),
    {
        match self {
            MigrationError::Io { message } => String::from_str("io error: ").concat(
                message.as_str(),
            ),
            MigrationError::Parse { message } => String::from_str("pattern error: ").concat(
                message.as_str(),
            ),
            MigrationError::Database { message } => String::from_str("database error: ").concat(
                message.as_str(),
            ),
            MigrationError::MissingMigration { version } => String::from_str("migration ").concat(
                version.as_str(),
            ).concat(" not found"),
            MigrationError::ChecksumMismatch { version } => String::from_str(
                "checksum mismatch for migration ",
            ).concat(version.as_str()),
            MigrationError::Apply { version, message } => String::from_str(
                "failed to apply migration ",
            ).concat(version.as_str()).concat(": ").concat(message.as_str()),
        }
    }
}

} // verus!
