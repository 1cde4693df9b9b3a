//! The bounded in-memory system of record for opportunities, strategies
//! and execution records: capacity-bounded writes with oldest-first
//! eviction, status updates, filtered reads, running counters and the
//! TTL cleanup pass.

use vstd::prelude::*;
use vstd::pervasive::VecAdditionalExecFns;
use crate::arbitrage::{
    ArbitrageOpportunity, ArbitrageStrategy, ArbitrageExecution, OpportunityStatus,
    ExecutionStatus, RiskScore, spec_risk_rank, spec_strategy_congruent, spec_execution_congruent,
};
use crate::dex::{DexType, spec_contains_dex, contains_dex};
use crate::units::{MILLIS_PER_DAY, valid_timestamp};

verus! {

/// How often the background cleanup pass is meant to run, in seconds.
pub const CLEANUP_INTERVAL_SECONDS: u64 = 300;

/// How long execution records are retained, in days.
pub const EXECUTION_RETENTION_DAYS: i64 = 7;

/// Running counters the store keeps alongside its contents.
#[derive(Debug)]
pub struct StoreMetrics {
    pub total_opportunities: u64,
    pub total_executions: u64,
    pub successful_executions: u64,
    pub total_profit: u64,
    pub total_fees: u64,
    /// Milliseconds since the Unix epoch.
    pub last_cleanup: i64,
}

impl Clone for StoreMetrics {
    fn clone(&self) -> (r: StoreMetrics)
        ensures
            r == *self,
    {
        StoreMetrics {
            total_opportunities: self.total_opportunities,
            total_executions: self.total_executions,
            successful_executions: self.successful_executions,
            total_profit: self.total_profit,
            total_fees: self.total_fees,
            last_cleanup: self.last_cleanup,
        }
    }
}

/// Point-in-time occupancy of the store.
#[derive(Clone, Copy, PartialEq, Eq, Structural, Debug)]
pub struct StorageUsage {
    pub opportunities_count: usize,
    pub strategies_count: usize,
    pub executions_count: usize,
    pub max_opportunities: usize,
    pub max_executions: usize,
}

/// Whether some entry in `s` carries the opportunity id `id`.
pub open spec fn spec_contains_opp_id(s: Seq<ArbitrageOpportunity>, id: Seq<char>) -> bool {
    exists|i: int| 0 <= i < s.len() && s[i].id@ == id
}

/// The index of the entry carrying `id`.
pub open spec fn spec_find_opp_id(s: Seq<ArbitrageOpportunity>, id: Seq<char>) -> int {
    choose|i: int| 0 <= i < s.len() && s[i].id@ == id
}

/// Opportunity ids are pairwise distinct.
pub open spec fn spec_unique_opp_ids(s: Seq<ArbitrageOpportunity>) -> bool {
    forall|i: int, j: int| 0 <= i < j < s.len() ==> s[i].id@ != s[j].id@
}

/// Whether some entry in `s` carries the strategy id `id`.
pub open spec fn spec_contains_strat_id(s: Seq<ArbitrageStrategy>, id: Seq<char>) -> bool {
    exists|i: int| 0 <= i < s.len() && s[i].id@ == id
}

/// The index of the strategy carrying `id`.
pub open spec fn spec_find_strat_id(s: Seq<ArbitrageStrategy>, id: Seq<char>) -> int {
    choose|i: int| 0 <= i < s.len() && s[i].id@ == id
}

/// Strategy ids are pairwise distinct.
pub open spec fn spec_unique_strat_ids(s: Seq<ArbitrageStrategy>) -> bool {
    forall|i: int, j: int| 0 <= i < j < s.len() ==> s[i].id@ != s[j].id@
}

/// `i` points at the entry that eviction selects: no entry has a smaller
/// creation timestamp, and every earlier entry has a strictly larger one.
pub open spec fn spec_is_first_oldest(s: Seq<ArbitrageOpportunity>, i: int) -> bool {
    &&& 0 <= i < s.len()
    &&& forall|j: int| 0 <= j < s.len() ==> s[i].timestamp <= s[j].timestamp
    &&& forall|j: int| 0 <= j < i ==> s[j].timestamp > s[i].timestamp
}

/// The index eviction selects.
pub open spec fn spec_oldest_index(s: Seq<ArbitrageOpportunity>) -> int {
    choose|i: int| spec_is_first_oldest(s, i)
}

/// At most one index can be first-oldest.
pub proof fn lemma_first_oldest_unique(s: Seq<ArbitrageOpportunity>, i: int, j: int)
    requires
        spec_is_first_oldest(s, i),
        spec_is_first_oldest(s, j),
    ensures
        i == j,
{
    if i < j {
        assert(s[i].timestamp > s[j].timestamp);
        assert(s[j].timestamp >= s[i].timestamp);
    } else if j < i {
        assert(s[j].timestamp > s[i].timestamp);
        assert(s[i].timestamp >= s[j].timestamp);
    }
}

/// What one capacity-bounded save leaves in the opportunity table: when
/// the table is full the first-oldest entry leaves, then the new record
/// replaces the entry with its id, or is appended.
pub open spec fn spec_save_opportunity(
    s: Seq<ArbitrageOpportunity>,
    o: ArbitrageOpportunity,
    max: int,
) -> Seq<ArbitrageOpportunity> {
    let s1 = if s.len() >= max {
        s.remove(spec_oldest_index(s))
    } else {
        s
    };
    if spec_contains_opp_id(s1, o.id@) {
        s1.update(spec_find_opp_id(s1, o.id@), o)
    } else {
        s1.push(o)
    }
}

/// What a sequence of saves leaves in the opportunity table.
pub open spec fn spec_batch_save(
    s: Seq<ArbitrageOpportunity>,
    batch: Seq<ArbitrageOpportunity>,
    max: int,
) -> Seq<ArbitrageOpportunity>
    decreases batch.len(),
{
    if batch.len() == 0 {
        s
    } else {
        spec_batch_save(spec_save_opportunity(s, batch[0], max), batch.drop_first(), max)
    }
}

/// What one bounded append leaves in the execution log: the oldest entry
/// leaves first when the log is full.
pub open spec fn spec_save_execution(
    s: Seq<ArbitrageExecution>,
    e: ArbitrageExecution,
    max: int,
) -> Seq<ArbitrageExecution> {
    let s1 = if s.len() >= max {
        s.drop_first()
    } else {
        s
    };
    s1.push(e)
}

/// The opportunities with the given status, in table order.
pub open spec fn spec_opps_with_status(
    s: Seq<ArbitrageOpportunity>,
    status: OpportunityStatus,
) -> Seq<ArbitrageOpportunity>
    decreases s.len(),
{
    if s.len() == 0 {
        Seq::empty()
    } else {
        let prefix = spec_opps_with_status(s.drop_last(), status);
        if s.last().status == status {
            prefix.push(s.last())
        } else {
            prefix
        }
    }
}

/// Whether a search keeps an opportunity: it clears the profit floor,
/// stays within the risk ceiling, and trades only on allowed exchanges.
pub open spec fn spec_search_keeps(
    o: ArbitrageOpportunity,
    min_profit: Option<i64>,
    max_risk: Option<RiskScore>,
    dex_types: Option<Seq<DexType>>,
) -> bool {
    &&& (min_profit is Some ==> o.net_profit >= min_profit->0)
    &&& (max_risk is Some ==> spec_risk_rank(o.risk_score) <= spec_risk_rank(max_risk->0))
    &&& (dex_types is Some ==> spec_contains_dex(dex_types->0, o.buy_pool.dex_type)
        && spec_contains_dex(dex_types->0, o.sell_pool.dex_type))
}

/// The opportunities a search keeps, in table order.
pub open spec fn spec_search_result(
    s: Seq<ArbitrageOpportunity>,
    min_profit: Option<i64>,
    max_risk: Option<RiskScore>,
    dex_types: Option<Seq<DexType>>,
) -> Seq<ArbitrageOpportunity>
    decreases s.len(),
{
    if s.len() == 0 {
        Seq::empty()
    } else {
        let prefix = spec_search_result(s.drop_last(), min_profit, max_risk, dex_types);
        if spec_search_keeps(s.last(), min_profit, max_risk, dex_types) {
            prefix.push(s.last())
        } else {
            prefix
        }
    }
}

/// The executions with the given status, in log order.
pub open spec fn spec_execs_with_status(
    s: Seq<ArbitrageExecution>,
    status: ExecutionStatus,
) -> Seq<ArbitrageExecution>
    decreases s.len(),
{
    if s.len() == 0 {
        Seq::empty()
    } else {
        let prefix = spec_execs_with_status(s.drop_last(), status);
        if s.last().execution_status == status {
            prefix.push(s.last())
        } else {
            prefix
        }
    }
}

/// The executions at or after the cutoff time, in log order.
pub open spec fn spec_execs_since(s: Seq<ArbitrageExecution>, cutoff: int) -> Seq<
    ArbitrageExecution,
>
    decreases s.len(),
{
    if s.len() == 0 {
        Seq::empty()
    } else {
        let prefix = spec_execs_since(s.drop_last(), cutoff);
        if s.last().execution_time >= cutoff {
            prefix.push(s.last())
        } else {
            prefix
        }
    }
}

/// Sum of the recorded profits of a run of executions.
pub open spec fn spec_profit_sum(s: Seq<ArbitrageExecution>) -> int
    decreases s.len(),
{
    if s.len() == 0 {
        0
    } else {
        spec_profit_sum(s.drop_last()) + (match s.last().actual_profit {
            Some(p) => p as int,
            None => 0,
        })
    }
}

/// Sum of the recorded total costs of a run of executions.
pub open spec fn spec_fee_sum(s: Seq<ArbitrageExecution>) -> int
    decreases s.len(),
{
    if s.len() == 0 {
        0
    } else {
        spec_fee_sum(s.drop_last()) + (match s.last().total_cost {
            Some(c) => c as int,
            None => 0,
        })
    }
}

/// The opportunity table after a cleanup pass at `now`: entries past
/// their expiry are marked `Expired` in place; nothing is removed.
pub open spec fn spec_cleanup_opps(s: Seq<ArbitrageOpportunity>, now: int) -> Seq<
    ArbitrageOpportunity,
> {
    s.map_values(
        |o: ArbitrageOpportunity|
            if o.expiry < now {
                ArbitrageOpportunity { status: OpportunityStatus::Expired, ..o }
            } else {
                o
            },
    )
}

/// The single source of truth for opportunities, strategies and
/// execution records, with two independent capacity ceilings enforced at
/// write time.
#[derive(Debug)]
pub struct MemoryStore {
    opportunities: Vec<ArbitrageOpportunity>,
    strategies: Vec<ArbitrageStrategy>,
    executions: Vec<ArbitrageExecution>,
    metrics: StoreMetrics,
    max_opportunities: usize,
    max_executions: usize,
    cleanup_interval_seconds: u64,
}

impl MemoryStore {
    /// The opportunity table.
    pub closed spec fn opps(self) -> Seq<ArbitrageOpportunity> {
        self.opportunities@
    }

    /// The strategy table.
    pub closed spec fn strats(self) -> Seq<ArbitrageStrategy> {
        self.strategies@
    }

    /// The execution log.
    pub closed spec fn execs(self) -> Seq<ArbitrageExecution> {
        self.executions@
    }

    /// The running counters.
    pub closed spec fn counters(self) -> StoreMetrics {
        self.metrics
    }

    /// The opportunity-table capacity.
    pub closed spec fn max_opps(self) -> int {
        self.max_opportunities as int
    }

    /// The execution-log capacity.
    pub closed spec fn max_execs(self) -> int {
        self.max_executions as int
    }

    /// The store invariant: both ceilings respected, both capacities
    /// positive, and ids unique within each table.
    pub open spec fn wf(self) -> bool {
        &&& self.opps().len() <= self.max_opps()
        &&& self.execs().len() <= self.max_execs()
        &&& 1 <= self.max_opps()
        &&& 1 <= self.max_execs()
        &&& spec_unique_opp_ids(self.opps())
        &&& spec_unique_strat_ids(self.strats())
    }

    /// An empty store with the given capacity ceilings; counters start at
    /// zero and the cleanup clock at `now`.
    pub fn new(max_opportunities: usize, max_executions: usize, now: i64) -> (r: MemoryStore)
        requires
            max_opportunities >= 1,
            max_executions >= 1,
        ensures
            r.wf(),
            r.opps().len() == 0,
            r.strats().len() == 0,
            r.execs().len() == 0,
            r.counters() == (StoreMetrics {
                total_opportunities: 0,
                total_executions: 0,
                successful_executions: 0,
                total_profit: 0,
                total_fees: 0,
                last_cleanup: now,
            }),
            r.max_opps() == max_opportunities,
            r.max_execs() == max_executions,
    {
        MemoryStore {
            opportunities: Vec::new(),
            strategies: Vec::new(),
            executions: Vec::new(),
            metrics: StoreMetrics {
                total_opportunities: 0,
                total_executions: 0,
                successful_executions: 0,
                total_profit: 0,
                total_fees: 0,
                last_cleanup: now,
            },
            max_opportunities,
            max_executions,
            cleanup_interval_seconds: CLEANUP_INTERVAL_SECONDS,
        }
    }

    /// The index of the first entry with a minimal creation timestamp.
    fn find_oldest_index(&self) -> (r: usize)
        requires
            self.opps().len() > 0,
        ensures
            spec_is_first_oldest(self.opps(), r as int),
            r as int == spec_oldest_index(self.opps()),
    {
        let mut best: usize = 0;
        let mut i: usize = 1;
        while i < self.opportunities.len()
            invariant
                0 <= best < i <= self.opps().len(),
                forall|j: int| 0 <= j < i ==> self.opps()[best as int].timestamp
                    <= self.opps()[j].timestamp,
                forall|j: int| 0 <= j < best ==> self.opps()[j].timestamp
                    > self.opps()[best as int].timestamp,
            decreases self.opps().len() - i,
        {
            if self.opportunities[i].timestamp < self.opportunities[best].timestamp {
                best = i;
            }
            i = i + 1;
        }
        proof {
            assert(spec_is_first_oldest(self.opps(), best as int));
            lemma_first_oldest_unique(self.opps(), best as int, spec_oldest_index(self.opps()));
        }
        best
    }

    /// The index of the entry with this opportunity id, if present.
    fn find_opp_index(&self, id: &String) -> (r: Option<usize>)
        ensures
            r is Some <==> spec_contains_opp_id(self.opps(), id@),
            r is Some ==> 0 <= r->0 < self.opps().len() && self.opps()[r->0 as int].id@ == id@,
    {
        let mut i: usize = 0;
        while i < self.opportunities.len()
            invariant
                0 <= i <= self.opps().len(),
                forall|j: int| 0 <= j < i ==> self.opps()[j].id@ != id@,
            decreases self.opps().len() - i,
        {
            if self.opportunities[i].id == *id {
                return Some(i);
            }
            i = i + 1;
        }
        None
    }

    /// Save an opportunity: evict the first-oldest entry when the table
    /// is full, then insert or overwrite by id, and count the save.
    pub fn save_opportunity(&mut self, opportunity: &ArbitrageOpportunity)
        requires
            old(self).wf(),
            old(self).counters().total_opportunities < u64::MAX,
        ensures
            final(self).wf(),
            final(self).opps() == spec_save_opportunity(
                old(self).opps(),
                *opportunity,
                old(self).max_opps(),
            ),
            final(self).opps().len() <= old(self).max_opps(),
            final(self).counters() == (StoreMetrics {
                total_opportunities: (old(self).counters().total_opportunities + 1) as u64,
                ..old(self).counters()
            }),
            final(self).strats() == old(self).strats(),
            final(self).execs() == old(self).execs(),
            final(self).max_opps() == old(self).max_opps(),
            final(self).max_execs() == old(self).max_execs(),
    {
        if self.opportunities.len() >= self.max_opportunities {
            let oldest = self.find_oldest_index();
            self.opportunities.remove(oldest);
            proof {
                assert(spec_unique_opp_ids(self.opportunities@)) by {
                    assert(forall|i: int, j: int|
                        0 <= i < j < self.opportunities@.len()
                            ==> self.opportunities@[i].id@ != self.opportunities@[j].id@);
                }
            }
        }
        match self.find_opp_index(&opportunity.id) {
            Some(i) => {
                proof {
                    let s1 = self.opportunities@;
                    let k = spec_find_opp_id(s1, opportunity.id@);
                    assert(0 <= k < s1.len() && s1[k].id@ == opportunity.id@);
                    if k != i {
                        assert(s1[i as int].id@ == s1[k].id@);
                        assert(false);
                    }
                }
                self.opportunities.set(i, opportunity.clone());
            },
            None => {
                self.opportunities.push(opportunity.clone());
            },
        }
        self.metrics.total_opportunities = self.metrics.total_opportunities + 1;
    }

    /// Save each of a batch in order, and count them all.
    pub fn batch_save_opportunities(&mut self, opportunities: Vec<ArbitrageOpportunity>)
        requires
            old(self).wf(),
            old(self).counters().total_opportunities + opportunities@.len() <= u64::MAX,
        ensures
            final(self).wf(),
            final(self).opps() == spec_batch_save(
                old(self).opps(),
                opportunities@,
                old(self).max_opps(),
            ),
            final(self).counters() == (StoreMetrics {
                total_opportunities: (old(self).counters().total_opportunities
                    + opportunities@.len()) as u64,
                ..old(self).counters()
            }),
            final(self).strats() == old(self).strats(),
            final(self).execs() == old(self).execs(),
            final(self).max_opps() == old(self).max_opps(),
            final(self).max_execs() == old(self).max_execs(),
    {
        let mut i: usize = 0;
        let n: usize = opportunities.len();
        proof {
            assert(opportunities@.skip(0) =~= opportunities@);
        }
        while i < n
            invariant
                0 <= i <= n,
                n == opportunities@.len(),
                self.wf(),
                old(self).counters().total_opportunities + n <= u64::MAX,
                self.counters().total_opportunities + (n - i) <= u64::MAX,
                spec_batch_save(self.opps(), opportunities@.skip(i as int), self.max_opps())
                    == spec_batch_save(old(self).opps(), opportunities@, old(self).max_opps()),
                self.counters() == (StoreMetrics {
                    total_opportunities: (old(self).counters().total_opportunities + i) as u64,
                    ..old(self).counters()
                }),
                self.strats() == old(self).strats(),
                self.execs() == old(self).execs(),
                self.max_opps() == old(self).max_opps(),
                self.max_execs() == old(self).max_execs(),
            decreases n - i,
        {
            let ghost rest = opportunities@.skip(i as int);
            proof {
                assert(rest[0] == opportunities@[i as int]);
                assert(rest.drop_first() =~= opportunities@.skip(i + 1));
            }
            self.save_opportunity(&opportunities[i]);
            i = i + 1;
        }
        proof {
            assert(opportunities@.skip(n as int) =~= Seq::<ArbitrageOpportunity>::empty());
        }
    }

    /// Replace the status of the entry with this id; a miss changes
    /// nothing.
    pub fn update_opportunity_status(&mut self, opportunity_id: &String, status: OpportunityStatus)
        requires
            old(self).wf(),
        ensures
            final(self).wf(),
            spec_contains_opp_id(old(self).opps(), opportunity_id@) ==> final(self).opps()
                == old(self).opps().update(
                spec_find_opp_id(old(self).opps(), opportunity_id@),
                ArbitrageOpportunity {
                    status,
                    ..old(self).opps()[spec_find_opp_id(old(self).opps(), opportunity_id@)]
                },
            ),
            !spec_contains_opp_id(old(self).opps(), opportunity_id@) ==> final(self).opps()
                == old(self).opps(),
            final(self).strats() == old(self).strats(),
            final(self).execs() == old(self).execs(),
            final(self).counters() == old(self).counters(),
            final(self).max_opps() == old(self).max_opps(),
            final(self).max_execs() == old(self).max_execs(),
    {
        match self.find_opp_index(opportunity_id) {
            Some(i) => {
                proof {
                    let s = self.opportunities@;
                    let k = spec_find_opp_id(s, opportunity_id@);
                    assert(0 <= k < s.len() && s[k].id@ == opportunity_id@);
                    if k != i {
                        assert(s[i as int].id@ == s[k].id@);
                        assert(false);
                    }
                }
                let mut updated = self.opportunities[i].clone();
                updated.update_status(status);
                self.opportunities.set(i, updated);
            },
            None => {},
        }
    }

    /// A copy of the entry with this id, if present.
    pub fn get_opportunity(&self, opportunity_id: &String) -> (r: Option<ArbitrageOpportunity>)
        requires
            self.wf(),
        ensures
            r is Some <==> spec_contains_opp_id(self.opps(), opportunity_id@),
            r is Some ==> r->0 == self.opps()[spec_find_opp_id(self.opps(), opportunity_id@)],
    {
        match self.find_opp_index(opportunity_id) {
            Some(i) => {
                proof {
                    let s = self.opportunities@;
                    let k = spec_find_opp_id(s, opportunity_id@);
                    assert(0 <= k < s.len() && s[k].id@ == opportunity_id@);
                    if k != i {
                        assert(s[i as int].id@ == s[k].id@);
                        assert(false);
                    }
                }
                Some(self.opportunities[i].clone())
            },
            None => None,
        }
    }

    /// Copies of the opportunities still pending, in table order.
    pub fn get_active_opportunities(&self) -> (r: Vec<ArbitrageOpportunity>)
        ensures
            r@ == spec_opps_with_status(self.opps(), OpportunityStatus::Pending),
    {
        self.get_opportunities_by_status(OpportunityStatus::Pending)
    }

    /// Copies of the opportunities in the given status, in table order.
    pub fn get_opportunities_by_status(&self, status: OpportunityStatus) -> (r: Vec<
        ArbitrageOpportunity,
    >)
        ensures
            r@ == spec_opps_with_status(self.opps(), status),
    {
        let mut result: Vec<ArbitrageOpportunity> = Vec::new();
        let mut i: usize = 0;
        proof {
            assert(self.opps().take(0) =~= Seq::<ArbitrageOpportunity>::empty());
        }
        while i < self.opportunities.len()
            invariant
                0 <= i <= self.opps().len(),
                result@ == spec_opps_with_status(self.opps().take(i as int), status),
            decreases self.opps().len() - i,
        {
            proof {
                assert(self.opps().take(i + 1).drop_last() =~= self.opps().take(i as int));
                assert(self.opps().take(i + 1).last() == self.opps()[i as int]);
            }
            if self.opportunities[i].status == status {
                result.push(self.opportunities[i].clone());
            }
            i = i + 1;
        }
        proof {
            assert(self.opps().take(i as int) =~= self.opps());
        }
        result
    }

    /// The index of the strategy with this id, if present.
    fn find_strat_index(&self, id: &String) -> (r: Option<usize>)
        ensures
            r is Some <==> spec_contains_strat_id(self.strats(), id@),
            r is Some ==> 0 <= r->0 < self.strats().len() && self.strats()[r->0 as int].id@ == id@,
    {
        let mut i: usize = 0;
        while i < self.strategies.len()
            invariant
                0 <= i <= self.strats().len(),
                forall|j: int| 0 <= j < i ==> self.strats()[j].id@ != id@,
            decreases self.strats().len() - i,
        {
            if self.strategies[i].id == *id {
                return Some(i);
            }
            i = i + 1;
        }
        None
    }

    /// Insert a strategy, or replace the one sharing its id.
    pub fn save_strategy(&mut self, strategy: ArbitrageStrategy)
        requires
            old(self).wf(),
        ensures
            final(self).wf(),
            spec_contains_strat_id(old(self).strats(), strategy.id@) ==> final(self).strats()
                == old(self).strats().update(
                spec_find_strat_id(old(self).strats(), strategy.id@),
                strategy,
            ),
            !spec_contains_strat_id(old(self).strats(), strategy.id@) ==> final(self).strats()
                == old(self).strats().push(strategy),
            final(self).opps() == old(self).opps(),
            final(self).execs() == old(self).execs(),
            final(self).counters() == old(self).counters(),
            final(self).max_opps() == old(self).max_opps(),
            final(self).max_execs() == old(self).max_execs(),
    {
        match self.find_strat_index(&strategy.id) {
            Some(i) => {
                proof {
                    let s = self.strategies@;
                    let k = spec_find_strat_id(s, strategy.id@);
                    assert(0 <= k < s.len() && s[k].id@ == strategy.id@);
                    if k != i {
                        assert(s[i as int].id@ == s[k].id@);
                        assert(false);
                    }
                }
                self.strategies.set(i, strategy);
            },
            None => {
                self.strategies.push(strategy);
            },
        }
    }

    /// Replace a strategy wholesale; the same operation as a save.
    pub fn update_strategy(&mut self, strategy: ArbitrageStrategy)
        requires
            old(self).wf(),
        ensures
            final(self).wf(),
            spec_contains_strat_id(old(self).strats(), strategy.id@) ==> final(self).strats()
                == old(self).strats().update(
                spec_find_strat_id(old(self).strats(), strategy.id@),
                strategy,
            ),
            !spec_contains_strat_id(old(self).strats(), strategy.id@) ==> final(self).strats()
                == old(self).strats().push(strategy),
            final(self).opps() == old(self).opps(),
            final(self).execs() == old(self).execs(),
            final(self).counters() == old(self).counters(),
            final(self).max_opps() == old(self).max_opps(),
            final(self).max_execs() == old(self).max_execs(),
    {
        self.save_strategy(strategy);
    }

    /// Remove the strategy with this id; a miss changes nothing.
    pub fn delete_strategy(&mut self, strategy_id: &String)
        requires
            old(self).wf(),
        ensures
            final(self).wf(),
            spec_contains_strat_id(old(self).strats(), strategy_id@) ==> final(self).strats()
                == old(self).strats().remove(
                spec_find_strat_id(old(self).strats(), strategy_id@),
            ),
            !spec_contains_strat_id(old(self).strats(), strategy_id@) ==> final(self).strats()
                == old(self).strats(),
            final(self).opps() == old(self).opps(),
            final(self).execs() == old(self).execs(),
            final(self).counters() == old(self).counters(),
            final(self).max_opps() == old(self).max_opps(),
            final(self).max_execs() == old(self).max_execs(),
    {
        match self.find_strat_index(strategy_id) {
            Some(i) => {
                proof {
                    let s = self.strategies@;
                    let k = spec_find_strat_id(s, strategy_id@);
                    assert(0 <= k < s.len() && s[k].id@ == strategy_id@);
                    if k != i {
                        assert(s[i as int].id@ == s[k].id@);
                        assert(false);
                    }
                }
                self.strategies.remove(i);
                proof {
                    assert(spec_unique_strat_ids(self.strategies@));
                }
            },
            None => {},
        }
    }

    /// Copies of all strategies, in table order; each copy carries the
    /// same data, with its DEX list compared by contents.
    pub fn get_strategies(&self) -> (r: Vec<ArbitrageStrategy>)
        ensures
            r@.len() == self.strats().len(),
            forall|i: int| 0 <= i < r@.len() ==> spec_strategy_congruent(
                r@[i],
                self.strats()[i],
            ),
    {
        let mut result: Vec<ArbitrageStrategy> = Vec::new();
        let mut i: usize = 0;
        while i < self.strategies.len()
            invariant
                0 <= i <= self.strats().len(),
                result@.len() == i,
                forall|j: int| 0 <= j < i ==> spec_strategy_congruent(
                    result@[j],
                    self.strats()[j],
                ),
            decreases self.strats().len() - i,
        {
            result.push(self.strategies[i].clone());
            i = i + 1;
        }
        result
    }

    /// Append an execution record, evicting the oldest first when the log
    /// is full, and roll its outcome into the running counters.
    pub fn save_execution(&mut self, execution: ArbitrageExecution)
        requires
            old(self).wf(),
            old(self).counters().total_executions < u64::MAX,
            old(self).counters().successful_executions < u64::MAX,
            old(self).counters().total_profit + (match execution.actual_profit {
                Some(p) => p as int,
                None => 0,
            }) <= u64::MAX,
            old(self).counters().total_fees + (match execution.total_cost {
                Some(c) => c as int,
                None => 0,
            }) <= u64::MAX,
        ensures
            final(self).wf(),
            final(self).execs() == spec_save_execution(
                old(self).execs(),
                execution,
                old(self).max_execs(),
            ),
            final(self).execs().len() <= old(self).max_execs(),
            final(self).counters().total_executions == old(self).counters().total_executions + 1,
            final(self).counters().successful_executions == old(
                self,
            ).counters().successful_executions + (if execution.execution_status is Confirmed {
                1int
            } else {
                0int
            }),
            final(self).counters().total_profit == old(self).counters().total_profit + (
            match execution.actual_profit {
                Some(p) => p as int,
                None => 0,
            }),
            final(self).counters().total_fees == old(self).counters().total_fees + (
            match execution.total_cost {
                Some(c) => c as int,
                None => 0,
            }),
            final(self).counters().last_cleanup == old(self).counters().last_cleanup,
            final(self).opps() == old(self).opps(),
            final(self).strats() == old(self).strats(),
            final(self).max_opps() == old(self).max_opps(),
            final(self).max_execs() == old(self).max_execs(),
    {
        if self.executions.len() >= self.max_executions {
            self.executions.remove(0);
        }
        let is_confirmed = execution.execution_status.is_terminal() && matches!(
            execution.execution_status, ExecutionStatus::Confirmed);
        let profit: u64 = match execution.actual_profit {
            Some(p) => p,
            None => 0,
        };
        let fees: u64 = match execution.total_cost {
            Some(c) => c,
            None => 0,
        };
        self.executions.push(execution);
        self.metrics.total_executions = self.metrics.total_executions + 1;
        if is_confirmed {
            self.metrics.successful_executions = self.metrics.successful_executions + 1;
        }
        self.metrics.total_profit = self.metrics.total_profit + profit;
        self.metrics.total_fees = self.metrics.total_fees + fees;
    }

    /// Copies of the executions in the given status, in log order; each
    /// copy carries the same record, with its route compared by contents.
    pub fn get_executions_by_status(&self, status: ExecutionStatus) -> (r: Vec<ArbitrageExecution>)
        ensures
            r@.len() == spec_execs_with_status(self.execs(), status).len(),
            forall|i: int| 0 <= i < r@.len() ==> spec_execution_congruent(
                r@[i],
                spec_execs_with_status(self.execs(), status)[i],
            ),
    {
        let mut result: Vec<ArbitrageExecution> = Vec::new();
        let mut i: usize = 0;
        proof {
            assert(self.execs().take(0) =~= Seq::<ArbitrageExecution>::empty());
        }
        while i < self.executions.len()
            invariant
                0 <= i <= self.execs().len(),
                result@.len() == spec_execs_with_status(self.execs().take(i as int), status).len(),
                forall|j: int| 0 <= j < result@.len() ==> spec_execution_congruent(
                    result@[j],
                    spec_execs_with_status(self.execs().take(i as int), status)[j],
                ),
            decreases self.execs().len() - i,
        {
            proof {
                assert(self.execs().take(i + 1).drop_last() =~= self.execs().take(i as int));
                assert(self.execs().take(i + 1).last() == self.execs()[i as int]);
            }
            if self.executions[i].execution_status == status {
                result.push(self.executions[i].clone());
                proof {
                    let prev = spec_execs_with_status(self.execs().take(i as int), status);
                    let cur = spec_execs_with_status(self.execs().take(i + 1), status);
                    assert(cur == prev.push(self.execs()[i as int]));
                }
            }
            i = i + 1;
        }
        proof {
            assert(self.execs().take(i as int) =~= self.execs());
        }
        result
    }

    /// Count, recorded profit and recorded cost of the executions from
    /// the last `days` days before `now`.
    pub fn get_execution_stats(&self, days: i64, now: i64) -> (r: (u64, u128, u128))
        requires
            0 <= days <= 36_500,
            valid_timestamp(now as int),
            self.execs().len() <= u64::MAX,
        ensures
            ({
                let kept = spec_execs_since(self.execs(), now - days * MILLIS_PER_DAY);
                r.0 == kept.len() && r.1 == spec_profit_sum(kept) && r.2 == spec_fee_sum(kept)
            }),
    {
        let cutoff: i64 = now - days * MILLIS_PER_DAY;
        let mut count: u64 = 0;
        let mut profit: u128 = 0;
        let mut fees: u128 = 0;
        let mut i: usize = 0;
        proof {
            assert(self.execs().take(0) =~= Seq::<ArbitrageExecution>::empty());
        }
        while i < self.executions.len()
            invariant
                0 <= i <= self.execs().len(),
                self.execs().len() <= u64::MAX,
                cutoff == now - days * MILLIS_PER_DAY,
                count == spec_execs_since(self.execs().take(i as int), cutoff as int).len(),
                count <= i,
                profit == spec_profit_sum(spec_execs_since(self.execs().take(i as int), cutoff as int)),
                fees == spec_fee_sum(spec_execs_since(self.execs().take(i as int), cutoff as int)),
                profit <= i * (u64::MAX as int),
                fees <= i * (u64::MAX as int),
            decreases self.execs().len() - i,
        {
            proof {
                assert(self.execs().take(i + 1).drop_last() =~= self.execs().take(i as int));
                assert(self.execs().take(i + 1).last() == self.execs()[i as int]);
                crate::units::lemma_mul_bounds(
                    i as int,
                    u64::MAX as int,
                    u64::MAX as int,
                    u64::MAX as int,
                );
                assert((i + 1) * (u64::MAX as int) == i * (u64::MAX as int) + u64::MAX as int)
                    by (nonlinear_arith);
            }
            if self.executions[i].execution_time >= cutoff {
                proof {
                    let pre = spec_execs_since(self.execs().take(i as int), cutoff as int);
                    let elem = self.execs()[i as int];
                    assert(pre.push(elem).drop_last() =~= pre);
                    assert(pre.push(elem).last() == elem);
                }
                count = count + 1;
                match self.executions[i].actual_profit {
                    Some(p) => { profit = profit + p as u128 },
                    None => {},
                }
                match self.executions[i].total_cost {
                    Some(c) => { fees = fees + c as u128 },
                    None => {},
                }
            }
            i = i + 1;
        }
        proof {
            assert(self.execs().take(i as int) =~= self.execs());
        }
        (count, profit, fees)
    }

    /// A copy of the running counters.
    pub fn get_metrics(&self) -> (r: StoreMetrics)
        ensures
            r == self.counters(),
    {
        self.metrics.clone()
    }

    /// The cleanup pass: mark expired opportunities in place, drop
    /// executions past the retention window, stamp the pass at `now`.
    pub fn cleanup_expired_data(&mut self, now: i64)
        requires
            old(self).wf(),
            valid_timestamp(now as int),
        ensures
            final(self).wf(),
            final(self).opps() == spec_cleanup_opps(old(self).opps(), now as int),
            final(self).execs() == spec_execs_since(
                old(self).execs(),
                now - EXECUTION_RETENTION_DAYS * MILLIS_PER_DAY,
            ),
            final(self).strats() == old(self).strats(),
            final(self).counters() == (StoreMetrics { last_cleanup: now, ..old(self).counters() }),
            final(self).max_opps() == old(self).max_opps(),
            final(self).max_execs() == old(self).max_execs(),
    {
        let ghost old_opps = self.opportunities@;
        let mut i: usize = 0;
        while i < self.opportunities.len()
            invariant
                0 <= i <= self.opportunities@.len(),
                self.opportunities@.len() == old_opps.len(),
                old_opps == old(self).opps(),
                self.strategies@ == old(self).strats(),
                self.executions@ == old(self).execs(),
                self.metrics == old(self).counters(),
                self.max_opportunities as int == old(self).max_opps(),
                self.max_executions as int == old(self).max_execs(),
                forall|j: int| 0 <= j < i ==> self.opportunities@[j] == spec_cleanup_opps(
                    old_opps,
                    now as int,
                )[j],
                forall|j: int| i <= j < old_opps.len() ==> self.opportunities@[j] == old_opps[j],
            decreases self.opportunities@.len() - i,
        {
            if self.opportunities[i].expiry < now {
                let mut updated = self.opportunities[i].clone();
                updated.update_status(OpportunityStatus::Expired);
                self.opportunities.set(i, updated);
            }
            i = i + 1;
        }
        proof {
            assert(self.opportunities@ =~= spec_cleanup_opps(old_opps, now as int));
            assert(spec_unique_opp_ids(self.opportunities@)) by {
                assert(forall|j: int| 0 <= j < old_opps.len() ==> #[trigger] self.opportunities@[j].id@
                    == old_opps[j].id@);
            }
        }
        let cutoff: i64 = now - EXECUTION_RETENTION_DAYS * MILLIS_PER_DAY;
        let ghost old_execs = self.executions@;
        let mut k: usize = 0;
        proof {
            assert(old_execs.take(0) =~= Seq::<ArbitrageExecution>::empty());
            assert(old_execs.skip(0) =~= old_execs);
        }
        while k < self.executions.len()
            invariant
                0 <= k,
                k <= self.executions@.len(),
                cutoff == now - EXECUTION_RETENTION_DAYS * MILLIS_PER_DAY,
                old_execs == old(self).execs(),
                self.opportunities@ == spec_cleanup_opps(old(self).opps(), now as int),
                spec_unique_opp_ids(self.opportunities@),
                self.strategies@ == old(self).strats(),
                self.metrics == old(self).counters(),
                self.max_opportunities as int == old(self).max_opps(),
                self.max_executions as int == old(self).max_execs(),
                self.executions@.len() <= old_execs.len(),
                exists|done: int|
                    0 <= done <= old_execs.len() && k as int == spec_execs_since(
                        old_execs.take(done),
                        cutoff as int,
                    ).len() && self.executions@ =~= spec_execs_since(
                        old_execs.take(done),
                        cutoff as int,
                    ) + old_execs.skip(done),
            decreases self.executions@.len() - k,
        {
            let ghost done = choose|done: int|
                0 <= done <= old_execs.len() && k as int == spec_execs_since(
                    old_execs.take(done),
                    cutoff as int,
                ).len() && self.executions@ =~= spec_execs_since(old_execs.take(done), cutoff as int)
                    + old_execs.skip(done);
            proof {
                assert(done < old_execs.len());
                assert(self.executions@[k as int] == old_execs[done]);
                assert(old_execs.take(done + 1).drop_last() =~= old_execs.take(done));
                assert(old_execs.take(done + 1).last() == old_execs[done]);
                assert(old_execs.skip(done).drop_first() =~= old_execs.skip(done + 1));
            }
            if self.executions[k].execution_time >= cutoff {
                k = k + 1;
                proof {
                    let pre = spec_execs_since(old_execs.take(done), cutoff as int);
                    let cur = spec_execs_since(old_execs.take(done + 1), cutoff as int);
                    assert(cur == pre.push(old_execs[done]));
                    assert(self.executions@ =~= cur + old_execs.skip(done + 1));
                }
            } else {
                self.executions.remove(k);
                proof {
                    let pre = spec_execs_since(old_execs.take(done), cutoff as int);
                    let cur = spec_execs_since(old_execs.take(done + 1), cutoff as int);
                    assert(cur == pre);
                    assert(self.executions@ =~= cur + old_execs.skip(done + 1));
                }
            }
        }
        proof {
            let done = choose|done: int|
                0 <= done <= old_execs.len() && k as int == spec_execs_since(
                    old_execs.take(done),
                    cutoff as int,
                ).len() && self.executions@ =~= spec_execs_since(old_execs.take(done), cutoff as int)
                    + old_execs.skip(done);
            assert(done == old_execs.len());
            assert(old_execs.take(done) =~= old_execs);
            assert(old_execs.skip(done) =~= Seq::<ArbitrageExecution>::empty());
            assert(self.executions@ =~= spec_execs_since(old_execs, cutoff as int));
            lemma_execs_since_len(old_execs, cutoff as int);
        }
        self.metrics.last_cleanup = now;
    }

    /// Point-in-time occupancy.
    pub fn get_storage_usage(&self) -> (r: StorageUsage)
        ensures
            r.opportunities_count == self.opps().len(),
            r.strategies_count == self.strats().len(),
            r.executions_count == self.execs().len(),
            r.max_opportunities as int == self.max_opps(),
            r.max_executions as int == self.max_execs(),
    {
        StorageUsage {
            opportunities_count: self.opportunities.len(),
            strategies_count: self.strategies.len(),
            executions_count: self.executions.len(),
            max_opportunities: self.max_opportunities,
            max_executions: self.max_executions,
        }
    }

    /// Copies of the opportunities a search keeps: enough net profit, a
    /// tolerated risk, and both pools on allowed exchanges.
    pub fn search_opportunities(
        &self,
        min_profit: Option<i64>,
        max_risk: Option<RiskScore>,
        dex_types: Option<Vec<DexType>>,
    ) -> (r: Vec<ArbitrageOpportunity>)
        ensures
            r@ == spec_search_result(
                self.opps(),
                min_profit,
                max_risk,
                match dex_types {
                    Some(v) => Some(v@),
                    None => None,
                },
            ),
    {
        let ghost dex_view: Option<Seq<DexType>> = match &dex_types {
            Some(v) => Some(v@),
            None => None,
        };
        let mut result: Vec<ArbitrageOpportunity> = Vec::new();
        let mut i: usize = 0;
        proof {
            assert(self.opps().take(0) =~= Seq::<ArbitrageOpportunity>::empty());
        }
        while i < self.opportunities.len()
            invariant
                0 <= i <= self.opps().len(),
                dex_view == (match dex_types {
                    Some(v) => Some(v@),
                    None => None,
                }),
                result@ == spec_search_result(
                    self.opps().take(i as int),
                    min_profit,
                    max_risk,
                    dex_view,
                ),
            decreases self.opps().len() - i,
        {
            proof {
                assert(self.opps().take(i + 1).drop_last() =~= self.opps().take(i as int));
                assert(self.opps().take(i + 1).last() == self.opps()[i as int]);
            }
            let o = &self.opportunities[i];
            let mut keep: bool = true;
            match min_profit {
                Some(mp) => {
                    if o.net_profit < mp {
                        keep = false;
                    }
                },
                None => {},
            }
            match &max_risk {
                Some(mr) => {
                    if !o.risk_score.le(mr) {
                        keep = false;
                    }
                },
                None => {},
            }
            match &dex_types {
                Some(allowed) => {
                    if !contains_dex(allowed, o.buy_pool.dex_type) || !contains_dex(
                        allowed,
                        o.sell_pool.dex_type,
                    ) {
                        keep = false;
                    }
                },
                None => {},
            }
            if keep {
                result.push(self.opportunities[i].clone());
            }
            i = i + 1;
        }
        proof {
            assert(self.opps().take(i as int) =~= self.opps());
        }
        result
    }
}

/// The retained executions are never more numerous than the log itself.
pub proof fn lemma_execs_since_len(s: Seq<ArbitrageExecution>, cutoff: int)
    ensures
        spec_execs_since(s, cutoff).len() <= s.len(),
    decreases s.len(),
{
    if s.len() > 0 {
        lemma_execs_since_len(s.drop_last(), cutoff);
    }
}

/// Capacity law: every store reachable through this module's operations
/// keeps at most its configured number of opportunities and of execution
/// records.
pub proof fn lemma_store_capacity(s: MemoryStore)
    requires
        s.wf(),
    ensures
        s.opps().len() <= s.max_opps(),
        s.execs().len() <= s.max_execs(),
{
}

/// Eviction law: when a save happens at capacity, the entry that leaves
/// is one with the smallest creation timestamp among those present just
/// before the insert; every other entry survives, except the one the new
/// record overwrites by id.
pub proof fn lemma_save_evicts_oldest(
    s: Seq<ArbitrageOpportunity>,
    o: ArbitrageOpportunity,
    max: int,
)
    requires
        max >= 1,
        s.len() <= max,
        s.len() >= max,
        spec_unique_opp_ids(s),
    ensures
        spec_save_opportunity(s, o, max).len() <= max,
        spec_is_first_oldest(s, spec_oldest_index(s)),
        forall|j: int|
            0 <= j < s.len() && j != spec_oldest_index(s) && s[j].id@ != o.id@
                ==> spec_save_opportunity(s, o, max).contains(s[j]),
{
    lemma_oldest_exists(s);
    let k = spec_oldest_index(s);
    let s1 = s.remove(k);
    assert forall|j: int| 0 <= j < s.len() && j != k && s[j].id@ != o.id@ implies
        spec_save_opportunity(s, o, max).contains(s[j]) by {
        let j1: int = if j < k {
            j
        } else {
            j - 1
        };
        assert(s1[j1] == s[j]);
        let out = spec_save_opportunity(s, o, max);
        if spec_contains_opp_id(s1, o.id@) {
            let u = spec_find_opp_id(s1, o.id@);
            assert(s1[u].id@ == o.id@);
            assert(u != j1);
            assert(out[j1] == s[j]);
        } else {
            assert(out[j1] == s[j]);
        }
    }
}

/// A non-empty table has a first-oldest entry.
pub proof fn lemma_oldest_exists(s: Seq<ArbitrageOpportunity>)
    requires
        s.len() > 0,
    ensures
        spec_is_first_oldest(s, spec_oldest_index(s)),
    decreases s.len(),
{
    if s.len() == 1 {
        assert(spec_is_first_oldest(s, 0));
        lemma_first_oldest_unique(s, 0, spec_oldest_index(s));
    } else {
        let rest = s.drop_last();
        lemma_oldest_exists(rest);
        let k = spec_oldest_index(rest);
        let last = s.len() - 1;
        assert(forall|j: int| 0 <= j < last ==> s[j] == rest[j]);
        if s[last].timestamp < rest[k].timestamp {
            assert forall|j: int| 0 <= j < s.len() implies s[last].timestamp
                <= s[j].timestamp by {
                if j < last {
                    assert(rest[k].timestamp <= rest[j].timestamp);
                }
            }
            assert forall|j: int| 0 <= j < last implies s[j].timestamp > s[last].timestamp by {
                assert(rest[k].timestamp <= rest[j].timestamp);
            }
            assert(spec_is_first_oldest(s, last));
            lemma_first_oldest_unique(s, last, spec_oldest_index(s));
        } else {
            assert forall|j: int| 0 <= j < s.len() implies s[k].timestamp <= s[j].timestamp by {
                if j < last {
                    assert(rest[k].timestamp <= rest[j].timestamp);
                }
            }
            assert forall|j: int| 0 <= j < k implies s[j].timestamp > s[k].timestamp by {
                assert(rest[j].timestamp > rest[k].timestamp);
            }
            assert(spec_is_first_oldest(s, k));
            lemma_first_oldest_unique(s, k, spec_oldest_index(s));
        }
    }
}

} // verus!
