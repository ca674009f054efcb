//! Structured failures of a migration run.
//!
//! Every failure names the step that failed and, where one is
//! involved, the numeric id of the offending migration. The driver
//! attaches whatever detail the database reported; the run itself is
//! all-or-nothing up to the point of failure.

use vstd::prelude::*;

verus! {

/// Which part of applying a single migration failed.
#[derive(Clone, Copy, PartialEq, Eq, Structural, Debug)]
pub enum ApplyFailure {
    /// A new transaction could not be opened on the connection.
    Begin,
    /// The migration file could not be read from disk.
    FileRead,
    /// A statement of the migration body was rejected.
    Execution,
    /// Inserting the ledger row failed (for instance a primary-key
    /// conflict from a concurrent run).
    LedgerInsert,
    /// The final commit of the transaction failed.
    Commit,
}

/// Why a migration run stopped.
#[derive(Clone, Copy, PartialEq, Eq, Structural, Debug)]
pub enum MigrateError {
    /// Two discovered migration files carry the same id.
    DuplicateId { id: u32 },
    /// No transaction could be opened for migration `id`.
    TransactionBegin { id: u32 },
    /// Creating the ledger table failed.
    LedgerSetup,
    /// The applied-check query for migration `id` failed.
    AppliedCheck { id: u32 },
    /// Migration `id`'s file could not be read at apply time.
    FileRead { id: u32 },
    /// Migration `id`'s body was rejected by the database.
    Execution { id: u32 },
    /// The ledger row for migration `id` could not be inserted.
    LedgerInsert { id: u32 },
    /// The transaction for migration `id` could not be committed.
    Commit { id: u32 },
}

/// The run error that a failure of sub-step `f` while applying the
/// migration with id `id` turns into.
pub open spec fn apply_error(id: u32, f: ApplyFailure) -> MigrateError {
    match f {
        ApplyFailure::Begin => MigrateError::TransactionBegin { id },
        ApplyFailure::FileRead => MigrateError::FileRead { id },
        ApplyFailure::Execution => MigrateError::Execution { id },
        ApplyFailure::LedgerInsert => MigrateError::LedgerInsert { id },
        ApplyFailure::Commit => MigrateError::Commit { id },
    }
}

} // verus!
