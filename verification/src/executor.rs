//! The bounded-concurrency executor: it turns accepted opportunities into
//! execution records, enforces the max-in-flight ceiling, advances each
//! record's status from observed chain outcomes, and clears terminal
//! records out of its active set.

use vstd::prelude::*;
use vstd::pervasive::VecAdditionalExecFns;
use crate::arbitrage::{
    ArbitrageOpportunity, ArbitrageExecution, ExecutionStatus, RiskScore, spec_terminal,
    spec_execution_congruent,
};

verus! {

/// When the executor acts on an accepted opportunity.
#[derive(Clone, Copy, PartialEq, Eq, Structural, Debug)]
pub enum ExecutionStrategy {
    Immediate,
    Delayed,
    Conditional,
}

/// What the chain reported about an in-flight transaction, as handed in
/// by whoever polls the transaction-status collaborator.
#[derive(Debug)]
pub enum ChainUpdate {
    /// The transaction was accepted into the pipeline under this
    /// signature.
    Accepted { signature: String },
    /// The transaction is final; the realized profit is known.
    Confirmed { profit: u64 },
    /// The transaction was dropped or reverted.
    Rejected { error: String },
    /// Nothing new yet.
    NoNews,
}

/// How one observed chain outcome advances an execution record:
/// `Pending` becomes `Submitted` on acceptance, `Submitted` becomes
/// `Confirmed` with its profit on finality, and any non-terminal state
/// becomes `Failed` on rejection; anything else is left alone.
pub open spec fn spec_advance(e: ArbitrageExecution, u: ChainUpdate) -> ArbitrageExecution {
    match u {
        ChainUpdate::Accepted { signature } => {
            if e.execution_status is Pending {
                ArbitrageExecution {
                    execution_status: ExecutionStatus::Submitted,
                    transaction_signature: Some(signature),
                    ..e
                }
            } else {
                e
            }
        },
        ChainUpdate::Confirmed { profit } => {
            if e.execution_status is Submitted {
                ArbitrageExecution {
                    execution_status: ExecutionStatus::Confirmed,
                    actual_profit: Some(profit),
                    ..e
                }
            } else {
                e
            }
        },
        ChainUpdate::Rejected { error } => {
            if !spec_terminal(e.execution_status) {
                ArbitrageExecution {
                    execution_status: ExecutionStatus::Failed,
                    error_message: Some(error),
                    ..e
                }
            } else {
                e
            }
        },
        ChainUpdate::NoNews => e,
    }
}

/// Advance one execution record from an observed chain outcome.
pub fn check_execution_status(execution: &mut ArbitrageExecution, update: ChainUpdate)
    ensures
        *final(execution) == spec_advance(*old(execution), update),
{
    match update {
        ChainUpdate::Accepted { signature } => {
            if matches!(execution.execution_status, ExecutionStatus::Pending) {
                execution.execution_status = ExecutionStatus::Submitted;
                execution.transaction_signature = Some(signature);
            }
        },
        ChainUpdate::Confirmed { profit } => {
            if matches!(execution.execution_status, ExecutionStatus::Submitted) {
                execution.execution_status = ExecutionStatus::Confirmed;
                execution.actual_profit = Some(profit);
            }
        },
        ChainUpdate::Rejected { error } => {
            if !execution.execution_status.is_terminal() {
                execution.execution_status = ExecutionStatus::Failed;
                execution.error_message = Some(error);
            }
        },
        ChainUpdate::NoNews => {},
    }
}

/// The non-terminal entries of a run of executions, in order.
pub open spec fn spec_retain_active(s: Seq<ArbitrageExecution>) -> Seq<ArbitrageExecution>
    decreases s.len(),
{
    if s.len() == 0 {
        Seq::empty()
    } else {
        let prefix = spec_retain_active(s.drop_last());
        if !spec_terminal(s.last().execution_status) {
            prefix.push(s.last())
        } else {
            prefix
        }
    }
}

/// The terminal entries of a run of executions, in order.
pub open spec fn spec_completed_of(s: Seq<ArbitrageExecution>) -> Seq<ArbitrageExecution>
    decreases s.len(),
{
    if s.len() == 0 {
        Seq::empty()
    } else {
        let prefix = spec_completed_of(s.drop_last());
        if spec_terminal(s.last().execution_status) {
            prefix.push(s.last())
        } else {
            prefix
        }
    }
}

/// Retaining entries never lengthens the run.
pub proof fn lemma_retain_active_len(s: Seq<ArbitrageExecution>)
    ensures
        spec_retain_active(s).len() <= s.len(),
    decreases s.len(),
{
    if s.len() > 0 {
        lemma_retain_active_len(s.drop_last());
    }
}

/// How many entries of a run are in the given status.
pub open spec fn spec_count_status(s: Seq<ArbitrageExecution>, status: ExecutionStatus) -> int
    decreases s.len(),
{
    if s.len() == 0 {
        0
    } else {
        spec_count_status(s.drop_last(), status) + (if s.last().execution_status == status {
            1int
        } else {
            0int
        })
    }
}

/// Counts never exceed the run's length.
pub proof fn lemma_count_status_le(s: Seq<ArbitrageExecution>, status: ExecutionStatus)
    ensures
        0 <= spec_count_status(s, status) <= s.len(),
    decreases s.len(),
{
    if s.len() > 0 {
        lemma_count_status_le(s.drop_last(), status);
    }
}

/// The first position in `s` holding the execution id `id`.
pub open spec fn spec_first_exec_index(s: Seq<ArbitrageExecution>, id: Seq<char>) -> int {
    choose|i: int|
        0 <= i < s.len() && s[i].id@ == id && (forall|j: int| 0 <= j < i ==> s[j].id@ != id)
}

/// Whether some entry of `s` holds the execution id `id`.
pub open spec fn spec_contains_exec_id(s: Seq<ArbitrageExecution>, id: Seq<char>) -> bool {
    exists|i: int| 0 <= i < s.len() && s[i].id@ == id
}

/// Point-in-time executor statistics.
#[derive(Clone, Copy, PartialEq, Eq, Structural, Debug)]
pub struct ExecutionStats {
    pub total_executions: usize,
    pub successful_executions: usize,
    pub failed_executions: usize,
    pub cancelled_executions: usize,
}

impl Default for ExecutionStats {
    /// All counters at zero.
    fn default() -> (r: ExecutionStats)
        ensures
            r.total_executions == 0,
            r.successful_executions == 0,
            r.failed_executions == 0,
            r.cancelled_executions == 0,
    {
        ExecutionStats {
            total_executions: 0,
            successful_executions: 0,
            failed_executions: 0,
            cancelled_executions: 0,
        }
    }
}

impl ExecutionStats {
    /// Share of successful executions, in millionths; zero when nothing
    /// ran.
    pub fn success_rate(&self) -> (r: u64)
        requires
            self.successful_executions <= self.total_executions,
        ensures
            self.total_executions == 0 ==> r == 0,
            self.total_executions > 0 ==> r as int == (self.successful_executions as int
                * 1_000_000) / self.total_executions as int,
    {
        if self.total_executions == 0 {
            0
        } else {
            proof {
                crate::units::lemma_mul_bounds(
                    self.successful_executions as int,
                    1_000_000,
                    usize::MAX as int,
                    1_000_000,
                );
                assert(self.successful_executions as int * 1_000_000 <= (self.successful_executions
                    as int * 1_000_000) * self.total_executions as int) by (nonlinear_arith)
                    requires
                        self.total_executions >= 1,
                        self.successful_executions >= 0,
                ;
                crate::units::lemma_div_bound(
                    self.successful_executions as int * 1_000_000,
                    self.total_executions as int,
                    self.successful_executions as int * 1_000_000,
                );
                crate::units::lemma_div_bound(
                    self.successful_executions as int * 1_000_000,
                    self.total_executions as int,
                    u64::MAX as int,
                );
                assert(self.successful_executions as int * 1_000_000 <= (u64::MAX as int)
                    * self.total_executions as int) by (nonlinear_arith)
                    requires
                        self.successful_executions <= self.total_executions,
                        self.total_executions >= 1,
                ;
            }
            ((self.successful_executions as u128 * 1_000_000) / (self.total_executions
                as u128)) as u64
        }
    }
}

/// A condition gating one execution.
#[derive(Debug)]
pub enum ExecutionCondition {
    Always,
    Never,
    MinProfit(i64),
    MaxRisk(RiskScore),
}

impl ExecutionCondition {
    /// Whether the condition lets the opportunity run. The profit and
    /// risk variants are placeholders that do not yet inspect the
    /// opportunity: only `Never` refuses.
    pub fn should_execute(&self, _opportunity: &ArbitrageOpportunity) -> (r: bool)
        ensures
            r == !(*self is Never),
    {
        match self {
            ExecutionCondition::Always => true,
            ExecutionCondition::Never => false,
            ExecutionCondition::MinProfit(_) => true,
            ExecutionCondition::MaxRisk(_) => true,
        }
    }
}

/// Timing and sizing knobs of the executor.
#[derive(Debug)]
pub struct ExecutionConfig {
    pub strategy: ExecutionStrategy,
    pub max_retries: u32,
    pub retry_delay_seconds: u64,
    pub timeout_seconds: u64,
    /// Fraction in millionths.
    pub slippage_tolerance: u128,
    /// Multiplier in millionths.
    pub gas_price_multiplier: u128,
}

impl Default for ExecutionConfig {
    /// Immediate execution, three retries five seconds apart, a
    /// thirty-second timeout, 1% slippage and a 1.1x gas multiplier.
    fn default() -> (r: ExecutionConfig)
        ensures
            r.strategy is Immediate,
            r.max_retries == 3,
            r.retry_delay_seconds == 5,
            r.timeout_seconds == 30,
            r.slippage_tolerance == 10_000,
            r.gas_price_multiplier == 1_100_000,
    {
        ExecutionConfig {
            strategy: ExecutionStrategy::Immediate,
            max_retries: 3,
            retry_delay_seconds: 5,
            timeout_seconds: 30,
            slippage_tolerance: 10_000,
            gas_price_multiplier: 1_100_000,
        }
    }
}

/// The bounded-concurrency consumer of accepted opportunities.
pub struct ArbitrageExecutor {
    max_concurrent_executions: usize,
    active_executions: Vec<ArbitrageExecution>,
}

impl ArbitrageExecutor {
    /// The in-flight execution records.
    pub closed spec fn active(self) -> Seq<ArbitrageExecution> {
        self.active_executions@
    }

    /// The configured max-in-flight ceiling.
    pub closed spec fn max_concurrent(self) -> int {
        self.max_concurrent_executions as int
    }

    /// The executor invariant: the active set never exceeds the ceiling.
    pub open spec fn wf(self) -> bool {
        self.active().len() <= self.max_concurrent()
    }

    /// An idle executor with the given ceiling.
    pub fn new(max_concurrent_executions: usize) -> (r: ArbitrageExecutor)
        ensures
            r.wf(),
            r.active().len() == 0,
            r.max_concurrent() == max_concurrent_executions,
    {
        ArbitrageExecutor { max_concurrent_executions, active_executions: Vec::new() }
    }

    /// Take on an opportunity: refused — and nothing changes — when the
    /// active set is at the ceiling; otherwise a fresh record enters the
    /// active set at the start of the state machine, `Pending`, and a
    /// copy of it is returned for forwarding.
    pub fn execute_opportunity(&mut self, opportunity: ArbitrageOpportunity, now: i64) -> (r:
        Option<ArbitrageExecution>)
        requires
            old(self).wf(),
        ensures
            final(self).wf(),
            final(self).max_concurrent() == old(self).max_concurrent(),
            r is Some <==> old(self).active().len() < old(self).max_concurrent(),
            r is None ==> final(self).active() == old(self).active(),
            r is Some ==> ({
                let e = final(self).active().last();
                &&& final(self).active() == old(self).active().push(e)
                &&& e.id@.len() == 36
                &&& e.opportunity == opportunity
                &&& e.execution_status is Pending
                &&& e.execution_time == now
                &&& e.transaction_signature is None
                &&& e.actual_profit is None
                &&& e.total_cost is None
                &&& e.error_message is None
                &&& spec_execution_congruent(r->0, e)
            }),
    {
        if self.active_executions.len() >= self.max_concurrent_executions {
            return None;
        }
        let execution = ArbitrageExecution::new(opportunity, now);
        let forwarded = execution.clone();
        self.active_executions.push(execution);
        Some(forwarded)
    }

    /// Remove every terminal record from the active set and hand the
    /// removed records back, in order, for publication to the engine.
    pub fn take_completed_executions(&mut self) -> (r: Vec<ArbitrageExecution>)
        requires
            old(self).wf(),
        ensures
            final(self).wf(),
            final(self).max_concurrent() == old(self).max_concurrent(),
            final(self).active() == spec_retain_active(old(self).active()),
            r@ == spec_completed_of(old(self).active()),
    {
        let mut completed: Vec<ArbitrageExecution> = Vec::new();
        let ghost old_active = self.active_executions@;
        let mut k: usize = 0;
        proof {
            assert(old_active.take(0) =~= Seq::<ArbitrageExecution>::empty());
            assert(old_active.skip(0) =~= old_active);
        }
        while k < self.active_executions.len()
            invariant
                0 <= k,
                k <= self.active_executions@.len(),
                self.max_concurrent_executions == old(self).max_concurrent(),
                old_active == old(self).active(),
                self.active_executions@.len() <= old_active.len(),
                old_active.len() <= old(self).max_concurrent(),
                exists|done: int|
                    0 <= done <= old_active.len() && k as int == spec_retain_active(
                        old_active.take(done),
                    ).len() && self.active_executions@ =~= spec_retain_active(
                        old_active.take(done),
                    ) + old_active.skip(done) && completed@ =~= spec_completed_of(
                        old_active.take(done),
                    ),
            decreases self.active_executions@.len() - k,
        {
            let ghost done = choose|done: int|
                0 <= done <= old_active.len() && k as int == spec_retain_active(
                    old_active.take(done),
                ).len() && self.active_executions@ =~= spec_retain_active(old_active.take(done))
                    + old_active.skip(done) && completed@ =~= spec_completed_of(
                    old_active.take(done),
                );
            proof {
                assert(done < old_active.len());
                assert(self.active_executions@[k as int] == old_active[done]);
                assert(old_active.take(done + 1).drop_last() =~= old_active.take(done));
                assert(old_active.take(done + 1).last() == old_active[done]);
                assert(old_active.skip(done).drop_first() =~= old_active.skip(done + 1));
            }
            if self.active_executions[k].execution_status.is_terminal() {
                let removed = self.active_executions.remove(k);
                completed.push(removed);
                proof {
                    let pre = spec_retain_active(old_active.take(done));
                    assert(spec_retain_active(old_active.take(done + 1)) == pre);
                    assert(self.active_executions@ =~= pre + old_active.skip(done + 1));
                    assert(spec_completed_of(old_active.take(done + 1))
                        == spec_completed_of(old_active.take(done)).push(old_active[done]));
                    assert(completed@ =~= spec_completed_of(old_active.take(done + 1)));
                }
            } else {
                k = k + 1;
                proof {
                    let pre = spec_retain_active(old_active.take(done));
                    assert(spec_retain_active(old_active.take(done + 1)) == pre.push(
                        old_active[done],
                    ));
                    assert(self.active_executions@ =~= spec_retain_active(
                        old_active.take(done + 1),
                    ) + old_active.skip(done + 1));
                    assert(spec_completed_of(old_active.take(done + 1)) == spec_completed_of(
                        old_active.take(done),
                    ));
                }
            }
        }
        proof {
            let done = choose|done: int|
                0 <= done <= old_active.len() && k as int == spec_retain_active(
                    old_active.take(done),
                ).len() && self.active_executions@ =~= spec_retain_active(old_active.take(done))
                    + old_active.skip(done) && completed@ =~= spec_completed_of(
                    old_active.take(done),
                );
            assert(done == old_active.len());
            assert(old_active.take(done) =~= old_active);
            assert(old_active.skip(done) =~= Seq::<ArbitrageExecution>::empty());
            assert(self.active_executions@ =~= spec_retain_active(old_active));
            assert(completed@ =~= spec_completed_of(old_active));
            lemma_retain_active_len(old_active);
        }
        completed
    }

    /// Drop every terminal record out of the active set.
    pub fn cleanup_completed_executions(&mut self)
        requires
            old(self).wf(),
        ensures
            final(self).wf(),
            final(self).max_concurrent() == old(self).max_concurrent(),
            final(self).active() == spec_retain_active(old(self).active()),
    {
        let _completed = self.take_completed_executions();
    }

    /// One monitoring pass: terminal records leave the active set;
    /// non-terminal ones await their next chain update.
    pub fn monitor_active_executions(&mut self)
        requires
            old(self).wf(),
        ensures
            final(self).wf(),
            final(self).max_concurrent() == old(self).max_concurrent(),
            final(self).active() == spec_retain_active(old(self).active()),
    {
        self.cleanup_completed_executions();
    }

    /// Feed an observed chain outcome to the first active record with
    /// this id; an unknown id changes nothing.
    pub fn apply_chain_update(&mut self, execution_id: &String, update: ChainUpdate)
        requires
            old(self).wf(),
        ensures
            final(self).wf(),
            final(self).max_concurrent() == old(self).max_concurrent(),
            !spec_contains_exec_id(old(self).active(), execution_id@) ==> final(self).active()
                == old(self).active(),
            spec_contains_exec_id(old(self).active(), execution_id@) ==> ({
                let k = spec_first_exec_index(old(self).active(), execution_id@);
                final(self).active() == old(self).active().update(
                    k,
                    spec_advance(old(self).active()[k], update),
                )
            }),
    {
        match self.find_first_by_id(execution_id) {
            Some(i) => {
                let mut entry = self.active_executions.remove(i);
                check_execution_status(&mut entry, update);
                self.active_executions.insert(i, entry);
                proof {
                    assert(self.active_executions@ =~= old(self).active().update(
                        i as int,
                        spec_advance(old(self).active()[i as int], update),
                    ));
                }
            },
            None => {},
        }
    }

    /// Force-cancel the first active record with this id.
    pub fn cancel_execution(&mut self, execution_id: &String)
        requires
            old(self).wf(),
        ensures
            final(self).wf(),
            final(self).max_concurrent() == old(self).max_concurrent(),
            !spec_contains_exec_id(old(self).active(), execution_id@) ==> final(self).active()
                == old(self).active(),
            spec_contains_exec_id(old(self).active(), execution_id@) ==> ({
                let k = spec_first_exec_index(old(self).active(), execution_id@);
                final(self).active() == old(self).active().update(
                    k,
                    ArbitrageExecution {
                        execution_status: ExecutionStatus::Cancelled,
                        ..old(self).active()[k]
                    },
                )
            }),
    {
        match self.find_first_by_id(execution_id) {
            Some(i) => {
                let mut entry = self.active_executions.remove(i);
                entry.execution_status = ExecutionStatus::Cancelled;
                self.active_executions.insert(i, entry);
                proof {
                    assert(self.active_executions@ =~= old(self).active().update(
                        i as int,
                        ArbitrageExecution {
                            execution_status: ExecutionStatus::Cancelled,
                            ..old(self).active()[i as int]
                        },
                    ));
                }
            },
            None => {},
        }
    }

    /// Send the first active record with this id back to `Pending`, with
    /// its error cleared — but only from the `Failed` state.
    pub fn retry_execution(&mut self, execution_id: &String)
        requires
            old(self).wf(),
        ensures
            final(self).wf(),
            final(self).max_concurrent() == old(self).max_concurrent(),
            !spec_contains_exec_id(old(self).active(), execution_id@) ==> final(self).active()
                == old(self).active(),
            spec_contains_exec_id(old(self).active(), execution_id@) ==> ({
                let k = spec_first_exec_index(old(self).active(), execution_id@);
                if old(self).active()[k].execution_status is Failed {
                    final(self).active() == old(self).active().update(
                        k,
                        ArbitrageExecution {
                            execution_status: ExecutionStatus::Pending,
                            error_message: None,
                            ..old(self).active()[k]
                        },
                    )
                } else {
                    final(self).active() == old(self).active()
                }
            }),
    {
        match self.find_first_by_id(execution_id) {
            Some(i) => {
                if matches!(self.active_executions[i].execution_status, ExecutionStatus::Failed) {
                    let mut entry = self.active_executions.remove(i);
                    entry.execution_status = ExecutionStatus::Pending;
                    entry.error_message = None;
                    self.active_executions.insert(i, entry);
                    proof {
                        assert(self.active_executions@ =~= old(self).active().update(
                            i as int,
                            ArbitrageExecution {
                                execution_status: ExecutionStatus::Pending,
                                error_message: None,
                                ..old(self).active()[i as int]
                            },
                        ));
                    }
                }
            },
            None => {},
        }
    }

    /// Counts of active records by terminal status.
    pub fn get_execution_stats(&self) -> (r: ExecutionStats)
        ensures
            r.total_executions == self.active().len(),
            r.successful_executions as int == spec_count_status(
                self.active(),
                ExecutionStatus::Confirmed,
            ),
            r.failed_executions as int == spec_count_status(
                self.active(),
                ExecutionStatus::Failed,
            ),
            r.cancelled_executions as int == spec_count_status(
                self.active(),
                ExecutionStatus::Cancelled,
            ),
    {
        let mut stats = ExecutionStats::default();
        let mut i: usize = 0;
        proof {
            assert(self.active().take(0) =~= Seq::<ArbitrageExecution>::empty());
        }
        while i < self.active_executions.len()
            invariant
                0 <= i <= self.active().len(),
                stats.total_executions == i,
                stats.successful_executions as int == spec_count_status(
                    self.active().take(i as int),
                    ExecutionStatus::Confirmed,
                ),
                stats.failed_executions as int == spec_count_status(
                    self.active().take(i as int),
                    ExecutionStatus::Failed,
                ),
                stats.cancelled_executions as int == spec_count_status(
                    self.active().take(i as int),
                    ExecutionStatus::Cancelled,
                ),
            decreases self.active().len() - i,
        {
            proof {
                assert(self.active().take(i + 1).drop_last() =~= self.active().take(i as int));
                assert(self.active().take(i + 1).last() == self.active()[i as int]);
                lemma_count_status_le(self.active().take(i as int), ExecutionStatus::Confirmed);
                lemma_count_status_le(self.active().take(i as int), ExecutionStatus::Failed);
                lemma_count_status_le(self.active().take(i as int), ExecutionStatus::Cancelled);
            }
            stats.total_executions = stats.total_executions + 1;
            match self.active_executions[i].execution_status {
                ExecutionStatus::Confirmed => {
                    stats.successful_executions = stats.successful_executions + 1;
                },
                ExecutionStatus::Failed => {
                    stats.failed_executions = stats.failed_executions + 1;
                },
                ExecutionStatus::Cancelled => {
                    stats.cancelled_executions = stats.cancelled_executions + 1;
                },
                _ => {},
            }
            i = i + 1;
        }
        proof {
            assert(self.active().take(i as int) =~= self.active());
        }
        stats
    }

    /// The ids of the in-flight records, in active-set order; used by
    /// the poll loop that gathers chain updates.
    pub fn active_execution_ids(&self) -> (r: Vec<String>)
        ensures
            r@.len() == self.active().len(),
            forall|i: int| 0 <= i < r@.len() ==> (#[trigger] r@[i])@ == self.active()[i].id@,
    {
        let mut result: Vec<String> = Vec::new();
        let mut i: usize = 0;
        while i < self.active_executions.len()
            invariant
                0 <= i <= self.active().len(),
                result@.len() == i,
                forall|j: int| 0 <= j < i ==> (#[trigger] result@[j])@ == self.active()[j].id@,
            decreases self.active().len() - i,
        {
            result.push(self.active_executions[i].id.clone());
            i = i + 1;
        }
        result
    }

    /// The first active index carrying this id, if any.
    fn find_first_by_id(&self, id: &String) -> (r: Option<usize>)
        ensures
            r is Some <==> spec_contains_exec_id(self.active(), id@),
            r is Some ==> ({
                let i = r->0 as int;
                0 <= i < self.active().len() && self.active()[i].id@ == id@ && (forall|j: int|
                    0 <= j < i ==> self.active()[j].id@ != id@) && i == spec_first_exec_index(
                    self.active(),
                    id@,
                )
            }),
    {
        let mut i: usize = 0;
        while i < self.active_executions.len()
            invariant
                0 <= i <= self.active().len(),
                forall|j: int| 0 <= j < i ==> self.active()[j].id@ != id@,
            decreases self.active().len() - i,
        {
            if self.active_executions[i].id == *id {
                proof {
                    let s = self.active();
                    assert(0 <= i < s.len() && s[i as int].id@ == id@ && (forall|j: int|
                        0 <= j < i ==> s[j].id@ != id@));
                    let k = spec_first_exec_index(s, id@);
                    assert(0 <= k < s.len() && s[k].id@ == id@ && (forall|j: int|
                        0 <= j < k ==> s[j].id@ != id@));
                    if k < i {
                        assert(s[k].id@ != id@);
                    } else if i < k {
                        assert(s[i as int].id@ != id@);
                    }
                }
                return Some(i);
            }
            i = i + 1;
        }
        None
    }
}

/// Concurrency-ceiling law: every executor reachable through this
/// module's operations holds at most its configured number of in-flight
/// executions in the active set.
pub proof fn lemma_executor_ceiling(e: ArbitrageExecutor)
    requires
        e.wf(),
    ensures
        e.active().len() <= e.max_concurrent(),
{
}

} // verus!
