//! The bookkeeping table of applied migrations.
//!
//! One row per applied migration, keyed by the three-character id,
//! with a server-assigned timestamp. This module owns the exact text
//! of the three statements the protocol needs — create the table
//! idempotently, count rows for an id, insert a row — and the reading
//! of the count query's answer. The driver executes the statements; a
//! row exists for an id exactly when that migration was durably
//! applied.

use vstd::prelude::*;

verus! {

/// The ledger table, under a configurable name.
pub struct MigrationsTable {
    /// The table's name; `migrations` by default.
    pub table_name: String,
}

impl MigrationsTable {
    /// A ledger over the table with this name.
    pub fn new(table_name: &str) -> (t: MigrationsTable)
        ensures
            t.table_name@ == table_name@,
    {
        MigrationsTable { table_name: String::from_str(table_name) }
    }

    /// The idempotent statement that creates the ledger table if it is
    /// absent: a `CHAR(3)` primary key and a timestamp defaulting to
    /// the database's current time. Safe to issue on every run.
    pub fn create_statement(&self) -> (s: String)
        ensures
            s@ == "CREATE TABLE IF NOT EXISTS \""@ + self.table_name@
                + "\" (id CHAR(3) NOT NULL PRIMARY KEY, created_at TIMESTAMP NOT NULL DEFAULT NOW())"@,
    {
        String::from_str("CREATE TABLE IF NOT EXISTS \"").concat(self.table_name.as_str()).concat(
            "\" (id CHAR(3) NOT NULL PRIMARY KEY, created_at TIMESTAMP NOT NULL DEFAULT NOW())",
        )
    }

    /// The query that counts ledger rows for one id, to be bound to
    /// the migration's id as `$1`. Read its answer with
    /// `applied_given_count`.
    pub fn count_query(&self) -> (s: String)
        ensures
            s@ == "SELECT COUNT(id) AS count FROM "@ + self.table_name@ + " WHERE id = $1"@,
    {
        String::from_str("SELECT COUNT(id) AS count FROM ").concat(self.table_name.as_str()).concat(
            " WHERE id = $1",
        )
    }

    /// The statement that records one migration as applied, to be
    /// bound to the migration's id as `$1`, inside the same
    /// transaction as the migration's body.
    pub fn insert_statement(&self) -> (s: String)
        ensures
            s@ == "INSERT INTO "@ + self.table_name@ + " (id) VALUES ($1)"@,
    {
        String::from_str("INSERT INTO ").concat(self.table_name.as_str()).concat(
            " (id) VALUES ($1)",
        )
    }

    /// What the count query's answer means: a migration is applied
    /// exactly when its row count is not zero.
    pub fn applied_given_count(count: i64) -> (b: bool)
        ensures
            b == (count != 0),
    {
        count != 0
    }
}

} // verus!
