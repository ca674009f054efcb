//! A verified core for applying versioned SQL migrations exactly once,
//! in ascending id order, with a durable ledger of what has been
//! applied.
//!
//! The library owns the decisions of a migration run: which directory
//! entries are migration files, in what order they run, which ones are
//! still pending, how each database outcome advances or aborts the
//! run, and the exact text of the ledger statements. Everything that
//! touches a live database or the filesystem stays outside, in a thin
//! driver that scans the directory, performs the actions the run hands
//! out and reports each outcome back.

use vstd::prelude::*;

pub mod errors;
pub mod ledger;
pub mod run;
pub mod source;

use crate::errors::MigrateError;
use crate::run::MigrationRun;
use crate::run::Phase;
use crate::source::file_names;
use crate::source::id_of;
use crate::source::matching;
use crate::source::plan_wf;
use crate::source::valid_name;

verus! {

/// Relies on std::path::PathBuf: the migrations directory path is
/// carried through opaquely; the library never inspects it.
#[verifier::external_type_specification]
#[verifier::external_body]
pub struct ExPathBuf(std::path::PathBuf);

/// Applies the migration files of one directory to one database.
pub struct Migrator {
    /// The directory that holds the migration files.
    pub path: std::path::PathBuf,
}

impl Migrator {
    /// A migrator over the given migrations directory.
    pub fn new(path: std::path::PathBuf) -> (m: Migrator)
        ensures
            m.path == path,
    {
        Migrator { path }
    }

    /// The migrations directory, for the driver to scan.
    pub fn directory(&self) -> (p: &std::path::PathBuf)
        ensures
            *p == self.path,
    {
        &self.path
    }

    /// Start a migration run from the raw names of the directory's
    /// regular files: build the ordered, duplicate-free plan and a
    /// fresh run over it, or report the duplicate id that makes the
    /// listing ambiguous.
    pub fn begin(&self, names: Vec<String>) -> (r: Result<MigrationRun, MigrateError>)
        ensures
            match r {
                Ok(m) => {
                    &&& m.wf()
                    &&& m.phase == Phase::Setup
                    &&& plan_wf(m.plan@)
                    &&& file_names(m.plan@).to_multiset() == matching(names@).to_multiset()
                    &&& m.checks@ == Seq::<bool>::empty()
                    &&& m.applied@ == Seq::<int>::empty()
                },
                Err(e) => exists|j: int, k: int|
                    #![trigger valid_name(names@[j]@), valid_name(names@[k]@)]
                    0 <= j < k < names@.len() && valid_name(names@[j]@) && valid_name(names@[k]@)
                        && id_of(names@[j]@) == id_of(names@[k]@)
                        && e == (MigrateError::DuplicateId { id: id_of(names@[j]@) as u32 }),
            },
    {
        let plan = match crate::source::discover(&names) {
            Ok(plan) => plan,
            Err(e) => {
                return Err(e);
            },
        };
        Ok(MigrationRun::new(plan))
    }
}

} // verus!
