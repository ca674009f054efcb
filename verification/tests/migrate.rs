use dbmigrate::errors::ApplyFailure;
use dbmigrate::errors::MigrateError;
use dbmigrate::ledger::MigrationsTable;
use dbmigrate::run::Action;
use dbmigrate::run::Event;
use dbmigrate::run::MigrationRun;
use dbmigrate::source::MigrationFile;
use dbmigrate::source::discover;
use dbmigrate::Migrator;

use std::collections::HashMap;
use std::collections::HashSet;

#[test]
fn parse_extracts_leading_id() {
    let d = MigrationFile::try_parse("001_init.sql").expect("valid name");
    assert_eq!(d.id, 1);
    assert_eq!(d.filename, "001_init.sql");
    assert_eq!(d.id_text(), "001");

    let d = MigrationFile::try_parse("042_add_users.sql").expect("valid name");
    assert_eq!(d.id, 42);
    assert_eq!(d.id_text(), "042");

    let d = MigrationFile::try_parse("999_x.sql").expect("valid name");
    assert_eq!(d.id, 999);
    assert_eq!(d.id_text(), "999");
}

#[test]
fn parse_rejects_non_matching_names() {
    assert!(MigrationFile::try_parse("init.sql").is_none());
    assert!(MigrationFile::try_parse("01_init.sql").is_none());
    assert!(MigrationFile::try_parse("0001_init.sql").is_none());
    assert!(MigrationFile::try_parse("abc_init.sql").is_none());
    assert!(MigrationFile::try_parse("001-init.sql").is_none());
    assert!(MigrationFile::try_parse("001_init.txt").is_none());
    assert!(MigrationFile::try_parse("001_init.sql.bak").is_none());
    assert!(MigrationFile::try_parse("001_in.it.sql").is_none());
    assert!(MigrationFile::try_parse("001_.sql").is_none());
    assert!(MigrationFile::try_parse("001_init").is_none());
    assert!(MigrationFile::try_parse("").is_none());
}

#[test]
fn discovery_skips_noise_without_aborting() {
    let names = vec![
        String::from("README.md"),
        String::from("001_init.sql"),
        String::from("notes.txt"),
        String::from("002_add_col.sql"),
        String::from("backup"),
    ];
    let plan = discover(&names).expect("no duplicates");
    assert_eq!(plan.len(), 2);
    assert_eq!(plan[0].filename, "001_init.sql");
    assert_eq!(plan[1].filename, "002_add_col.sql");
}

#[test]
fn discovery_sorts_by_id() {
    let names = vec![
        String::from("003_c.sql"),
        String::from("001_a.sql"),
        String::from("002_b.sql"),
    ];
    let plan = discover(&names).expect("no duplicates");
    let ids: Vec<u32> = plan.iter().map(|d| d.id).collect();
    assert_eq!(ids, vec![1, 2, 3]);
    let texts: Vec<String> = plan.iter().map(|d| d.id_text()).collect();
    assert_eq!(texts, vec!["001", "002", "003"]);
}

#[test]
fn discovery_reports_duplicate_ids() {
    let names = vec![
        String::from("001_a.sql"),
        String::from("002_b.sql"),
        String::from("001_c.sql"),
    ];
    match discover(&names) {
        Err(MigrateError::DuplicateId { id }) => assert_eq!(id, 1),
        other => panic!("expected a duplicate-id error, got {:?}", other),
    }
}

#[test]
fn repeated_listing_of_one_name_is_a_duplicate() {
    let names = vec![String::from("004_x.sql"), String::from("004_x.sql")];
    match discover(&names) {
        Err(MigrateError::DuplicateId { id }) => assert_eq!(id, 4),
        other => panic!("expected a duplicate-id error, got {:?}", other),
    }
}

#[test]
fn ledger_statements_have_exact_text() {
    let table = MigrationsTable::new("migrations");
    assert_eq!(
        table.create_statement(),
        "CREATE TABLE IF NOT EXISTS \"migrations\" (id CHAR(3) NOT NULL PRIMARY KEY, created_at TIMESTAMP NOT NULL DEFAULT NOW())"
    );
    assert_eq!(
        table.count_query(),
        "SELECT COUNT(id) AS count FROM migrations WHERE id = $1"
    );
    assert_eq!(
        table.insert_statement(),
        "INSERT INTO migrations (id) VALUES ($1)"
    );
    assert!(!MigrationsTable::applied_given_count(0));
    assert!(MigrationsTable::applied_given_count(5));
    assert!(MigrationsTable::applied_given_count(-1));
}

/// Drive a run against a simulated database: `ledger` holds applied
/// id texts, `bodies` maps a filename to Ok (body applies cleanly) or
/// Err (the sub-step that fails). Returns the ids applied, in order.
fn drive(
    run: &mut MigrationRun,
    ledger: &mut HashSet<String>,
    bodies: &HashMap<String, Result<(), ApplyFailure>>,
) -> Vec<String> {
    let mut applied_now: Vec<String> = Vec::new();
    while let Some(action) = run.next_action() {
        match action {
            Action::EnsureLedger => run.step(Event::LedgerReady),
            Action::CheckApplied(i) => {
                assert!(i < run.len());
                let id = run.descriptor(i).id_text();
                let count: i64 = if ledger.contains(&id) { 1 } else { 0 };
                let applied = MigrationsTable::applied_given_count(count);
                run.step(Event::CheckResult(applied));
            }
            Action::Apply(i) => {
                assert!(i < run.len());
                let d = run.descriptor(i);
                let id = d.id_text();
                match bodies.get(&d.filename).cloned().unwrap_or(Err(ApplyFailure::FileRead)) {
                    Ok(()) => {
                        // body and ledger row commit together
                        ledger.insert(id.clone());
                        applied_now.push(id);
                        run.step(Event::ApplyOk);
                    }
                    Err(f) => {
                        // transaction rolled back: no ledger row
                        run.step(Event::ApplyFailed(f));
                    }
                }
            }
        }
    }
    applied_now
}

#[test]
fn end_to_end_applies_in_order_then_nothing() {
    let migrator = Migrator::new(std::path::PathBuf::from("migrations"));
    let names = vec![
        String::from("002_add_col.sql"),
        String::from("001_create_users.sql"),
    ];
    let mut bodies: HashMap<String, Result<(), ApplyFailure>> = HashMap::new();
    bodies.insert(String::from("001_create_users.sql"), Ok(()));
    bodies.insert(String::from("002_add_col.sql"), Ok(()));
    let mut ledger: HashSet<String> = HashSet::new();

    let mut run = migrator.begin(names.clone()).expect("plan builds");
    let applied = drive(&mut run, &mut ledger, &bodies);
    assert!(run.done());
    assert_eq!(run.failure(), None);
    assert_eq!(applied, vec!["001", "002"]);
    assert!(ledger.contains("001") && ledger.contains("002"));

    // the second run over the same directory and ledger applies nothing
    let mut rerun = migrator.begin(names).expect("plan builds");
    let applied_again = drive(&mut rerun, &mut ledger, &bodies);
    assert!(rerun.done());
    assert_eq!(applied_again, Vec::<String>::new());
    assert_eq!(ledger.len(), 2);
}

#[test]
fn failed_body_leaves_no_ledger_row() {
    // the body's second statement is invalid: the transaction rolls
    // back, so neither its effect nor a ledger row survives
    let names = vec![String::from("001_bad.sql")];
    let mut bodies: HashMap<String, Result<(), ApplyFailure>> = HashMap::new();
    bodies.insert(String::from("001_bad.sql"), Err(ApplyFailure::Execution));
    let mut ledger: HashSet<String> = HashSet::new();

    let mut run = MigrationRun::new(discover(&names).unwrap());
    let applied = drive(&mut run, &mut ledger, &bodies);
    assert!(!run.done());
    assert_eq!(run.failure(), Some(MigrateError::Execution { id: 1 }));
    assert_eq!(applied, Vec::<String>::new());
    assert!(ledger.is_empty());
}

#[test]
fn vanished_file_fails_its_run_but_keeps_prior_progress() {
    let names = vec![String::from("001_a.sql"), String::from("002_b.sql")];
    let mut bodies: HashMap<String, Result<(), ApplyFailure>> = HashMap::new();
    bodies.insert(String::from("001_a.sql"), Ok(()));
    bodies.insert(String::from("002_b.sql"), Err(ApplyFailure::FileRead));
    let mut ledger: HashSet<String> = HashSet::new();

    let mut run = MigrationRun::new(discover(&names).unwrap());
    let applied = drive(&mut run, &mut ledger, &bodies);
    assert_eq!(run.failure(), Some(MigrateError::FileRead { id: 2 }));
    assert_eq!(applied, vec!["001"]);
    assert!(ledger.contains("001") && !ledger.contains("002"));

    // a later run must not reapply 001; it stops on 002 again
    let mut rerun = MigrationRun::new(discover(&names).unwrap());
    let applied_again = drive(&mut rerun, &mut ledger, &bodies);
    assert_eq!(rerun.failure(), Some(MigrateError::FileRead { id: 2 }));
    assert_eq!(applied_again, Vec::<String>::new());
    assert!(ledger.contains("001"));
}

#[test]
fn ledger_setup_failure_aborts_before_any_migration() {
    let names = vec![String::from("001_a.sql")];
    let mut run = MigrationRun::new(discover(&names).unwrap());
    assert_eq!(run.next_action(), Some(Action::EnsureLedger));
    run.step(Event::LedgerFailed);
    assert_eq!(run.next_action(), None);
    assert_eq!(run.failure(), Some(MigrateError::LedgerSetup));
}

#[test]
fn check_failure_aborts_at_that_migration() {
    let names = vec![String::from("007_x.sql")];
    let mut run = MigrationRun::new(discover(&names).unwrap());
    run.step(Event::LedgerReady);
    assert_eq!(run.next_action(), Some(Action::CheckApplied(0)));
    run.step(Event::CheckFailed);
    assert_eq!(run.failure(), Some(MigrateError::AppliedCheck { id: 7 }));
}

#[test]
fn each_apply_failure_names_its_step_and_id() {
    for (failure, expected) in [
        (ApplyFailure::Begin, MigrateError::TransactionBegin { id: 5 }),
        (ApplyFailure::FileRead, MigrateError::FileRead { id: 5 }),
        (ApplyFailure::Execution, MigrateError::Execution { id: 5 }),
        (ApplyFailure::LedgerInsert, MigrateError::LedgerInsert { id: 5 }),
        (ApplyFailure::Commit, MigrateError::Commit { id: 5 }),
    ] {
        let names = vec![String::from("005_x.sql")];
        let mut run = MigrationRun::new(discover(&names).unwrap());
        run.step(Event::LedgerReady);
        run.step(Event::CheckResult(false));
        assert_eq!(run.next_action(), Some(Action::Apply(0)));
        run.step(Event::ApplyFailed(failure));
        assert_eq!(run.failure(), Some(expected));
        assert_eq!(run.next_action(), None);
    }
}

#[test]
fn empty_directory_is_a_successful_run() {
    let names: Vec<String> = Vec::new();
    let mut run = MigrationRun::new(discover(&names).unwrap());
    assert_eq!(run.len(), 0);
    run.step(Event::LedgerReady);
    assert!(run.done());
    assert_eq!(run.failure(), None);
}

#[test]
fn migrator_keeps_its_directory() {
    let migrator = Migrator::new(std::path::PathBuf::from("db/migrations"));
    assert_eq!(migrator.directory(), &std::path::PathBuf::from("db/migrations"));
}
