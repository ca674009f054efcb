//! The migration-application protocol as a step machine.
//!
//! A run walks an ordered plan. For each step it hands out one action
//! (create the ledger, check one migration, apply one migration); the
//! driver performs the action against the database and reports the
//! outcome back through `step`. The machine decides everything: a
//! migration is applied exactly when its check said it was not yet,
//! applications happen in ascending id order, and the first failure of
//! any kind stops the run with a structured error. Ghost state records
//! the check results and the applications, so these guarantees can be
//! stated and proved of every run.

use vstd::prelude::*;

use crate::errors::ApplyFailure;
use crate::errors::MigrateError;
use crate::errors::apply_error;
use crate::source::MigrationFile;
use crate::source::plan_wf;

verus! {

/// What the driver must do next.
#[derive(Clone, Copy, PartialEq, Eq, Structural, Debug)]
pub enum Action {
    /// Issue the idempotent ledger-creation statement.
    EnsureLedger,
    /// Query whether the plan entry at this index is already applied.
    CheckApplied(usize),
    /// Apply the plan entry at this index: read its file, execute the
    /// body and insert its ledger row, all in one transaction.
    Apply(usize),
}

/// What the driver reports back about the action it performed.
#[derive(Clone, Copy, PartialEq, Eq, Structural, Debug)]
pub enum Event {
    /// The ledger table exists.
    LedgerReady,
    /// The ledger-creation statement failed.
    LedgerFailed,
    /// The applied-check query answered: `true` means a ledger row for
    /// the migration exists.
    CheckResult(bool),
    /// The applied-check query itself failed.
    CheckFailed,
    /// The migration's transaction committed.
    ApplyOk,
    /// Applying the migration failed at the given sub-step; the
    /// transaction was not committed.
    ApplyFailed(ApplyFailure),
}

/// Where a run stands.
#[derive(Clone, Copy, PartialEq, Eq, Structural, Debug)]
pub enum Phase {
    /// The ledger table has not been ensured yet.
    Setup,
    /// About to check whether the plan entry at this index is applied.
    Check(usize),
    /// The entry at this index is pending; about to apply it.
    Apply(usize),
    /// Every plan entry has been checked and, where pending, applied.
    Done,
    /// The run stopped on its first error.
    Failed(MigrateError),
}

/// The indexes below `h` whose check answered `false`, in ascending
/// order: the migrations that were pending and therefore applied.
pub open spec fn pending_of(checks: Seq<bool>, h: int) -> Seq<int>
    decreases h,
{
    if h <= 0 {
        Seq::empty()
    } else {
        let m = pending_of(checks, h - 1);
        if checks[h - 1] == false {
            m.push(h - 1)
        } else {
            m
        }
    }
}

/// Appending a later check result does not change the pending set of
/// an earlier horizon.
proof fn lemma_pending_push(checks: Seq<bool>, x: bool, h: int)
    requires
        0 <= h <= checks.len(),
    ensures
        pending_of(checks.push(x), h) == pending_of(checks, h),
    decreases h,
{
    if h > 0 {
        lemma_pending_push(checks, x, h - 1);
    }
}

/// Every pending index lies below the horizon, was checked `false`,
/// and the pending sequence is strictly increasing.
proof fn lemma_pending_props(checks: Seq<bool>, h: int)
    requires
        0 <= h <= checks.len(),
    ensures
        forall|a: int| #![trigger pending_of(checks, h)[a]]
            0 <= a < pending_of(checks, h).len() ==> 0 <= pending_of(checks, h)[a] < h
                && checks[pending_of(checks, h)[a]] == false,
        forall|a: int, b: int|
            0 <= a < b < pending_of(checks, h).len() ==> pending_of(checks, h)[a] < pending_of(
                checks,
                h,
            )[b],
    decreases h,
{
    if h > 0 {
        lemma_pending_props(checks, h - 1);
        let m = pending_of(checks, h - 1);
        let cur = pending_of(checks, h);
        assert forall|a: int| 0 <= a < cur.len() implies 0 <= #[trigger] cur[a] < h
            && checks[cur[a]] == false by {
            if checks[h - 1] == false && a == m.len() {
                assert(cur[a] == h - 1);
            } else {
                assert(cur[a] == m[a]);
            }
        }
        assert forall|a: int, b: int| 0 <= a < b < cur.len() implies cur[a] < cur[b] by {
            assert(cur[a] == m[a]);
            if checks[h - 1] == false && b == m.len() {
                assert(cur[b] == h - 1);
                assert(m[a] < h - 1);
            } else {
                assert(cur[b] == m[b]);
            }
        }
    }
}

/// Every index below the horizon whose check answered `false` is in
/// the pending sequence.
proof fn lemma_pending_complete(checks: Seq<bool>, h: int, k: int)
    requires
        0 <= k < h <= checks.len(),
        checks[k] == false,
    ensures
        pending_of(checks, h).contains(k),
    decreases h,
{
    let m = pending_of(checks, h - 1);
    if k == h - 1 {
        assert(pending_of(checks, h)[m.len() as int] == k);
    } else {
        lemma_pending_complete(checks, h - 1, k);
        let idx = choose|idx: int| 0 <= idx < m.len() && m[idx] == k;
        assert(pending_of(checks, h)[idx] == k);
    }
}

/// One migration run over a fixed plan.
pub struct MigrationRun {
    /// The ordered plan, fixed at the start of the run.
    pub plan: Vec<MigrationFile>,
    /// Where the run stands.
    pub phase: Phase,
    /// The answers of the applied-checks performed so far, in plan
    /// order.
    pub checks: Ghost<Seq<bool>>,
    /// How many plan entries are fully decided: checked, and applied
    /// if the check said pending.
    pub settled: Ghost<int>,
    /// The plan indexes whose application committed, in order.
    pub applied: Ghost<Seq<int>>,
}

/// Whether an event is the outcome of the action the run handed out.
pub open spec fn event_fits(m: MigrationRun, e: Event) -> bool {
    match (m.phase, e) {
        (Phase::Setup, Event::LedgerReady) => true,
        (Phase::Setup, Event::LedgerFailed) => true,
        (Phase::Check(_), Event::CheckResult(_)) => true,
        (Phase::Check(_), Event::CheckFailed) => true,
        (Phase::Apply(_), Event::ApplyOk) => true,
        (Phase::Apply(_), Event::ApplyFailed(_)) => true,
        _ => false,
    }
}

impl MigrationRun {
    /// The run's invariant: the plan is well formed and the ghost
    /// record is consistent with the phase. In particular, the applied
    /// indexes are exactly the settled ones whose check said pending.
    pub open spec fn wf(&self) -> bool {
        &&& plan_wf(self.plan@)
        &&& self.checks@.len() <= self.plan@.len()
        &&& 0 <= self.settled@ <= self.checks@.len()
        &&& self.applied@ == pending_of(self.checks@, self.settled@)
        &&& match self.phase {
            Phase::Setup => self.checks@.len() == 0 && self.settled@ == 0,
            Phase::Check(i) => i < self.plan@.len() && self.checks@.len() == i
                && self.settled@ == i,
            Phase::Apply(i) => i < self.plan@.len() && self.checks@.len() == i + 1
                && self.checks@[i as int] == false && self.settled@ == i,
            Phase::Done => self.checks@.len() == self.plan@.len() && self.settled@
                == self.plan@.len(),
            Phase::Failed(_) => true,
        }
    }

    /// Start a run over an ordered, well-formed plan. Nothing has been
    /// checked or applied yet.
    pub fn new(plan: Vec<MigrationFile>) -> (m: MigrationRun)
        requires
            plan_wf(plan@),
        ensures
            m.wf(),
            m.phase == Phase::Setup,
            m.plan@ == plan@,
            m.checks@ == Seq::<bool>::empty(),
            m.applied@ == Seq::<int>::empty(),
    {
        MigrationRun {
            plan,
            phase: Phase::Setup,
            checks: Ghost(Seq::empty()),
            settled: Ghost(0),
            applied: Ghost(Seq::empty()),
        }
    }

    /// The next action the driver must perform, or `None` when the run
    /// is over: first the ledger, then each plan entry in order, a
    /// check and, if pending, an application.
    pub fn next_action(&self) -> (a: Option<Action>)
        ensures
            a == match self.phase {
                Phase::Setup => Some(Action::EnsureLedger),
                Phase::Check(i) => Some(Action::CheckApplied(i)),
                Phase::Apply(i) => Some(Action::Apply(i)),
                Phase::Done => None::<Action>,
                Phase::Failed(_) => None::<Action>,
            },
    {
        match self.phase {
            Phase::Setup => Some(Action::EnsureLedger),
            Phase::Check(i) => Some(Action::CheckApplied(i)),
            Phase::Apply(i) => Some(Action::Apply(i)),
            Phase::Done => None,
            Phase::Failed(_) => None,
        }
    }

    /// Advance on the outcome of the pending action.
    ///
    /// A check answering `true` skips the entry; `false` makes it the
    /// one to apply next. A committed application is recorded. Any
    /// reported failure stops the run with the error naming the step
    /// and the migration id; nothing is recorded for the failed entry.
    pub fn step(&mut self, event: Event)
        requires
            old(self).wf(),
            event_fits(*old(self), event),
        ensures
            final(self).wf(),
            final(self).plan@ == old(self).plan@,
            match (old(self).phase, event) {
                (Phase::Setup, Event::LedgerReady) => {
                    &&& final(self).phase == (if old(self).plan@.len() == 0 {
                        Phase::Done
                    } else {
                        Phase::Check(0)
                    })
                    &&& final(self).checks@ == old(self).checks@
                    &&& final(self).applied@ == old(self).applied@
                },
                (Phase::Setup, Event::LedgerFailed) => {
                    &&& final(self).phase == Phase::Failed(MigrateError::LedgerSetup)
                    &&& final(self).checks@ == old(self).checks@
                    &&& final(self).applied@ == old(self).applied@
                },
                (Phase::Check(i), Event::CheckResult(b)) => {
                    &&& final(self).checks@ == old(self).checks@.push(b)
                    &&& final(self).applied@ == old(self).applied@
                    &&& final(self).phase == (if !b {
                        Phase::Apply(i)
                    } else if i + 1 == old(self).plan@.len() {
                        Phase::Done
                    } else {
                        Phase::Check((i + 1) as usize)
                    })
                },
                (Phase::Check(i), Event::CheckFailed) => {
                    &&& final(self).phase == Phase::Failed(
                        (MigrateError::AppliedCheck { id: old(self).plan@[i as int].id }),
                    )
                    &&& final(self).checks@ == old(self).checks@
                    &&& final(self).applied@ == old(self).applied@
                },
                (Phase::Apply(i), Event::ApplyOk) => {
                    &&& final(self).checks@ == old(self).checks@
                    &&& final(self).applied@ == old(self).applied@.push(i as int)
                    &&& final(self).phase == (if i + 1 == old(self).plan@.len() {
                        Phase::Done
                    } else {
                        Phase::Check((i + 1) as usize)
                    })
                },
                (Phase::Apply(i), Event::ApplyFailed(f)) => {
                    &&& final(self).phase == Phase::Failed(
                        apply_error(old(self).plan@[i as int].id, f),
                    )
                    &&& final(self).checks@ == old(self).checks@
                    &&& final(self).applied@ == old(self).applied@
                },
                _ => false,
            },
    {
        let n = self.plan.len();
        match (self.phase, event) {
            (Phase::Setup, Event::LedgerReady) => {
                self.phase = if n == 0 {
                    Phase::Done
                } else {
                    Phase::Check(0)
                };
            },
            (Phase::Setup, Event::LedgerFailed) => {
                self.phase = Phase::Failed(MigrateError::LedgerSetup);
            },
            (Phase::Check(i), Event::CheckResult(b)) => {
                proof {
                    lemma_pending_push(self.checks@, b, self.settled@);
                }
                self.checks = Ghost(self.checks@.push(b));
                if !b {
                    self.phase = Phase::Apply(i);
                } else {
                    self.settled = Ghost(self.settled@ + 1);
                    self.phase = if i + 1 == n {
                        Phase::Done
                    } else {
                        Phase::Check(i + 1)
                    };
                }
            },
            (Phase::Check(i), Event::CheckFailed) => {
                let id = self.plan[i].id;
                self.phase = Phase::Failed(MigrateError::AppliedCheck { id });
            },
            (Phase::Apply(i), Event::ApplyOk) => {
                self.applied = Ghost(self.applied@.push(i as int));
                self.settled = Ghost(self.settled@ + 1);
                self.phase = if i + 1 == n {
                    Phase::Done
                } else {
                    Phase::Check(i + 1)
                };
            },
            (Phase::Apply(i), Event::ApplyFailed(f)) => {
                let id = self.plan[i].id;
                self.phase = Phase::Failed(match f {
                    ApplyFailure::Begin => MigrateError::TransactionBegin { id },
                    ApplyFailure::FileRead => MigrateError::FileRead { id },
                    ApplyFailure::Execution => MigrateError::Execution { id },
                    ApplyFailure::LedgerInsert => MigrateError::LedgerInsert { id },
                    ApplyFailure::Commit => MigrateError::Commit { id },
                });
            },
            _ => {
                proof {
                    assert(false);
                }
            },
        }
    }

    /// The plan entry at an index, for the driver to act on.
    pub fn descriptor(&self, i: usize) -> (d: &MigrationFile)
        requires
            i < self.plan@.len(),
        ensures
            *d == self.plan@[i as int],
    {
        &self.plan[i]
    }

    /// How many migrations the plan holds.
    pub fn len(&self) -> (n: usize)
        ensures
            n == self.plan@.len(),
    {
        self.plan.len()
    }

    /// Whether the run finished with every plan entry decided.
    pub fn done(&self) -> (b: bool)
        ensures
            b == (self.phase is Done),
    {
        matches!(self.phase, Phase::Done)
    }

    /// The error the run stopped on, if it failed.
    pub fn failure(&self) -> (r: Option<MigrateError>)
        ensures
            r == match self.phase {
                Phase::Failed(e) => Some(e),
                _ => None::<MigrateError>,
            },
    {
        match self.phase {
            Phase::Failed(e) => Some(e),
            _ => None,
        }
    }
}

/// A run against an up-to-date ledger applies nothing: if every check
/// answered `true`, the record of applications is empty. Running
/// `migrate` a second time over an unchanged directory and database
/// therefore performs no write.
pub proof fn lemma_second_run_applies_nothing(m: &MigrationRun)
    requires
        m.wf(),
        forall|k: int| 0 <= k < m.checks@.len() ==> m.checks@[k] == true,
    ensures
        m.applied@.len() == 0,
{
    lemma_pending_props(m.checks@, m.settled@);
    if m.applied@.len() > 0 {
        assert(m.checks@[m.applied@[0]] == false);
    }
}

/// Applications happen in ascending id order: of two recorded
/// applications, the earlier one carries the smaller id.
pub proof fn lemma_applies_in_order(m: &MigrationRun, a: int, b: int)
    requires
        m.wf(),
        0 <= a < b < m.applied@.len(),
    ensures
        0 <= m.applied@[a] < m.applied@[b] < m.plan@.len(),
        m.plan@[m.applied@[a]].id < m.plan@[m.applied@[b]].id,
{
    lemma_pending_props(m.checks@, m.settled@);
}

/// A migration whose check found it already applied is never applied
/// again: every recorded application had a pending check.
pub proof fn lemma_never_reapplies(m: &MigrationRun, a: int)
    requires
        m.wf(),
        0 <= a < m.applied@.len(),
    ensures
        0 <= m.applied@[a] < m.checks@.len(),
        m.checks@[m.applied@[a]] == false,
{
    lemma_pending_props(m.checks@, m.settled@);
}

/// A run that reached `Done` applied every pending migration: each
/// plan entry whose check answered `false` is recorded as applied.
pub proof fn lemma_done_run_is_complete(m: &MigrationRun, k: int)
    requires
        m.wf(),
        m.phase is Done,
        0 <= k < m.plan@.len(),
        m.checks@[k] == false,
    ensures
        m.applied@.contains(k),
{
    lemma_pending_complete(m.checks@, m.settled@, k);
}

} // verus!
