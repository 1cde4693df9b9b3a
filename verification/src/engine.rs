//! The orchestrating engine: it owns the active-opportunity set, filters
//! inbound opportunities through the loaded strategies, deduplicates by
//! id, persists accepted work, hands execution records onward, folds
//! execution results back into opportunity state, and expires stale
//! entries.

use vstd::prelude::*;
use crate::arbitrage::{
    ArbitrageOpportunity, ArbitrageStrategy, ArbitrageExecution, ArbitrageMetrics,
    OpportunityStatus, ExecutionStatus, RiskScore, spec_strategy_suitable,
    spec_strategy_congruent, spec_execution_congruent,
};
use crate::config::AppConfig;
use crate::dex::DexType;
use crate::store::{
    MemoryStore, StorageUsage, spec_contains_opp_id, spec_find_opp_id,
    spec_unique_opp_ids, spec_contains_strat_id, spec_find_strat_id, spec_unique_strat_ids,
    spec_save_opportunity, spec_save_execution, spec_search_result, spec_profit_sum,
    spec_fee_sum,
};

verus! {

/// Strategy ids used by the engine's own table.
pub open spec fn spec_unique_engine_strat_ids(s: Seq<ArbitrageStrategy>) -> bool {
    spec_unique_strat_ids(s)
}

/// Whether the engine accepts an inbound opportunity: it has not yet
/// expired, some loaded strategy finds it suitable, its id is not already
/// active, and its net profit clears the configured threshold.
pub open spec fn spec_engine_accepts(
    strategies: Seq<ArbitrageStrategy>,
    active: Seq<ArbitrageOpportunity>,
    min_profit_threshold: i64,
    o: ArbitrageOpportunity,
    now: int,
) -> bool {
    &&& !(now > o.expiry)
    &&& exists|i: int| 0 <= i < strategies.len() && spec_strategy_suitable(
        #[trigger] strategies[i],
        o,
    )
    &&& !spec_contains_opp_id(active, o.id@)
    &&& o.net_profit > min_profit_threshold
}

/// The opportunity status an execution outcome maps to:
/// confirmation completes, failure fails, cancellation expires, anything
/// else leaves the opportunity pending.
pub open spec fn spec_status_of_outcome(s: ExecutionStatus) -> OpportunityStatus {
    match s {
        ExecutionStatus::Confirmed => OpportunityStatus::Completed,
        ExecutionStatus::Failed => OpportunityStatus::Failed,
        ExecutionStatus::Cancelled => OpportunityStatus::Expired,
        _ => OpportunityStatus::Pending,
    }
}

/// The entries of the active set still unexpired at `now`, in order.
pub open spec fn spec_keep_unexpired(s: Seq<ArbitrageOpportunity>, now: int) -> Seq<
    ArbitrageOpportunity,
>
    decreases s.len(),
{
    if s.len() == 0 {
        Seq::empty()
    } else {
        let prefix = spec_keep_unexpired(s.drop_last(), now);
        if now > s.last().expiry {
            prefix
        } else {
            prefix.push(s.last())
        }
    }
}

/// The ids of the entries expired at `now`, in order.
pub open spec fn spec_expired_ids(s: Seq<ArbitrageOpportunity>, now: int) -> Seq<Seq<char>>
    decreases s.len(),
{
    if s.len() == 0 {
        Seq::empty()
    } else {
        let prefix = spec_expired_ids(s.drop_last(), now);
        if now > s.last().expiry {
            prefix.push(s.last().id@)
        } else {
            prefix
        }
    }
}

/// One id marked `Expired` in the store's opportunity table, where
/// present.
pub open spec fn spec_mark_one(s: Seq<ArbitrageOpportunity>, id: Seq<char>) -> Seq<
    ArbitrageOpportunity,
> {
    if spec_contains_opp_id(s, id) {
        s.update(
            spec_find_opp_id(s, id),
            ArbitrageOpportunity {
                status: OpportunityStatus::Expired,
                ..s[spec_find_opp_id(s, id)]
            },
        )
    } else {
        s
    }
}

/// A run of ids marked `Expired` in order.
pub open spec fn spec_mark_ids(s: Seq<ArbitrageOpportunity>, ids: Seq<Seq<char>>) -> Seq<
    ArbitrageOpportunity,
>
    decreases ids.len(),
{
    if ids.len() == 0 {
        s
    } else {
        spec_mark_ids(spec_mark_one(s, ids[0]), ids.drop_first())
    }
}

/// Marking one more id at the end composes with marking the run before
/// it.
pub proof fn lemma_mark_ids_push(s: Seq<ArbitrageOpportunity>, ids: Seq<Seq<char>>, id: Seq<char>)
    ensures
        spec_mark_ids(s, ids.push(id)) == spec_mark_one(spec_mark_ids(s, ids), id),
    decreases ids.len(),
{
    if ids.len() == 0 {
        assert(ids.push(id).drop_first() =~= Seq::<Seq<char>>::empty());
        assert(ids.push(id)[0] == id);
        assert(spec_mark_ids(spec_mark_one(s, id), Seq::<Seq<char>>::empty())
            == spec_mark_one(s, id));
        assert(spec_mark_ids(s, ids) == s);
    } else {
        assert(ids.push(id)[0] == ids[0]);
        assert(ids.push(id).drop_first() =~= ids.drop_first().push(id));
        lemma_mark_ids_push(spec_mark_one(s, ids[0]), ids.drop_first(), id);
    }
}

/// `perm` matches each output position to a distinct history index
/// whose record that position copies, and every history entry left out
/// is no newer than any selected one — so the output is a permutation
/// of the newest records of the history.
pub open spec fn spec_history_selection(
    r: Seq<ArbitrageExecution>,
    history: Seq<ArbitrageExecution>,
    perm: Seq<int>,
) -> bool {
    &&& perm.len() == r.len()
    &&& forall|a: int| 0 <= a < perm.len() ==> 0 <= #[trigger] perm[a] < history.len()
    &&& forall|a: int, b: int| 0 <= a < b < perm.len() ==> perm[a] != perm[b]
    &&& forall|a: int|
        0 <= a < perm.len() ==> spec_execution_congruent(r[a], history[#[trigger] perm[a]])
    &&& forall|k: int|
        #![trigger history[k]]
        0 <= k < history.len() && !perm.contains(k) ==> (forall|a: int|
            0 <= a < perm.len() ==> history[k].execution_time <= history[
                #[trigger] perm[a]].execution_time)
}

/// Some matching as above exists: the output is a permutation of the
/// newest records of the history, compared record by record with routes
/// by contents.
pub open spec fn spec_is_history_selection(
    r: Seq<ArbitrageExecution>,
    history: Seq<ArbitrageExecution>,
) -> bool {
    exists|perm: Seq<int>| spec_history_selection(r, history, perm)
}

/// The profit floor the stock strategy is given: the configured
/// threshold, or 1% when the configuration holds none.
pub open spec fn spec_default_threshold(c: AppConfig) -> u128 {
    if c.arbitrage.min_profit_threshold > 0 {
        c.arbitrage.min_profit_threshold as u128
    } else {
        10_000u128
    }
}

/// The shape of the stock strategy loaded at startup.
pub open spec fn spec_default_strategy_shape(s: ArbitrageStrategy, threshold: u128) -> bool {
    &&& s.name@ == "default"@
    &&& s.min_profit_threshold == threshold
    &&& s.risk_tolerance is Medium
    &&& s.min_liquidity == 1_000
    &&& s.is_active
}

/// A store strategy is carried into the loaded table: some loaded entry
/// bears its id and either its contents or the stock shape (the stock
/// strategy replaces a namesake id).
pub open spec fn spec_store_strategy_loaded(
    cur: Seq<ArbitrageStrategy>,
    entry: ArbitrageStrategy,
    threshold: u128,
) -> bool {
    exists|j: int|
        0 <= j < cur.len() && (#[trigger] cur[j]).id@ == entry.id@ && (spec_strategy_congruent(
            cur[j],
            entry,
        ) || spec_default_strategy_shape(cur[j], threshold))
}

/// A loaded entry's provenance: it was already loaded, it is a copy of
/// a store entry, or it is the stock strategy.
pub open spec fn spec_loaded_provenance(
    s: ArbitrageStrategy,
    pre: Seq<ArbitrageStrategy>,
    stored: Seq<ArbitrageStrategy>,
    threshold: u128,
) -> bool {
    ||| pre.contains(s)
    ||| (exists|k: int| 0 <= k < stored.len() && spec_strategy_congruent(s, #[trigger] stored[k]))
    ||| spec_default_strategy_shape(s, threshold)
}

/// The orchestrator. It owns the active-opportunity set, the loaded
/// strategies, the execution history and the backing store.
pub struct ArbitrageEngine {
    config: AppConfig,
    strategies: Vec<ArbitrageStrategy>,
    active_opportunities: Vec<ArbitrageOpportunity>,
    executions: Vec<ArbitrageExecution>,
    memory_store: MemoryStore,
}

impl ArbitrageEngine {
    /// The loaded strategies.
    pub closed spec fn strategies(self) -> Seq<ArbitrageStrategy> {
        self.strategies@
    }

    /// The active-opportunity set.
    pub closed spec fn active(self) -> Seq<ArbitrageOpportunity> {
        self.active_opportunities@
    }

    /// The execution history.
    pub closed spec fn history(self) -> Seq<ArbitrageExecution> {
        self.executions@
    }

    /// The backing store.
    pub closed spec fn store(self) -> MemoryStore {
        self.memory_store
    }

    /// The configuration the engine runs under.
    pub closed spec fn cfg(self) -> AppConfig {
        self.config
    }

    /// The engine invariant: a well-formed store and unique ids in the
    /// active set and the strategy table.
    pub open spec fn wf(self) -> bool {
        &&& self.store().wf()
        &&& spec_unique_opp_ids(self.active())
        &&& spec_unique_engine_strat_ids(self.strategies())
    }

    /// An idle engine over a fresh store sized from the configuration.
    pub fn new(config: AppConfig, now: i64) -> (r: ArbitrageEngine)
        requires
            config.memory_store.max_opportunities >= 1,
            config.memory_store.max_executions >= 1,
        ensures
            r.wf(),
            r.strategies().len() == 0,
            r.active().len() == 0,
            r.history().len() == 0,
            r.store().opps().len() == 0,
            r.store().strats().len() == 0,
            r.store().execs().len() == 0,
            r.store().max_opps() == config.memory_store.max_opportunities,
            r.store().max_execs() == config.memory_store.max_executions,
            r.cfg() == config,
    {
        let memory_config = config.get_memory_store_config();
        let memory_store = MemoryStore::new(
            memory_config.max_opportunities,
            memory_config.max_executions,
            now,
        );
        ArbitrageEngine {
            config,
            strategies: Vec::new(),
            active_opportunities: Vec::new(),
            executions: Vec::new(),
            memory_store,
        }
    }

    /// The index of the loaded strategy with this id, if present.
    fn find_strategy_index(&self, id: &String) -> (r: Option<usize>)
        ensures
            r is Some <==> spec_contains_strat_id(self.strategies(), id@),
            r is Some ==> 0 <= r->0 < self.strategies().len() && self.strategies()[r->0
                as int].id@ == id@,
    {
        let mut i: usize = 0;
        while i < self.strategies.len()
            invariant
                0 <= i <= self.strategies().len(),
                forall|j: int| 0 <= j < i ==> self.strategies()[j].id@ != id@,
            decreases self.strategies().len() - i,
        {
            if self.strategies[i].id == *id {
                return Some(i);
            }
            i = i + 1;
        }
        None
    }

    /// Insert a strategy into the engine's table, or replace its
    /// namesake by id.
    fn upsert_strategy(&mut self, strategy: ArbitrageStrategy)
        requires
            spec_unique_engine_strat_ids(old(self).strategies()),
        ensures
            spec_unique_engine_strat_ids(final(self).strategies()),
            spec_contains_strat_id(old(self).strategies(), strategy.id@) ==> final(self).strategies() == old(self).strategies().update(
                spec_find_strat_id(old(self).strategies(), strategy.id@),
                strategy,
            ),
            !spec_contains_strat_id(old(self).strategies(), strategy.id@) ==> final(self).strategies() == old(self).strategies().push(strategy),
            final(self).active() == old(self).active(),
            final(self).history() == old(self).history(),
            final(self).store() == old(self).store(),
            final(self).cfg() == old(self).cfg(),
    {
        match self.find_strategy_index(&strategy.id) {
            Some(i) => {
                proof {
                    let s = self.strategies@;
                    let k = spec_find_strat_id(s, strategy.id@);
                    assert(0 <= k < s.len() && s[k].id@ == strategy.id@);
                    if k != i {
                        assert(s[i as int].id@ == s[k].id@);
                        assert(false);
                    }
                }
                vstd::pervasive::VecAdditionalExecFns::set(&mut self.strategies, i, strategy);
            },
            None => {
                self.strategies.push(strategy);
            },
        }
    }

    /// Load every strategy the store holds, then the stock strategy.
    /// Every store entry is carried over with its contents, every loaded
    /// entry has a provenance, and a strategy of the stock shape — the
    /// configured profit threshold (or 1% when the configuration holds
    /// none), medium risk, 1000 units of liquidity, every exchange —
    /// is present afterwards.
    pub fn load_strategies(&mut self, now: i64)
        requires
            old(self).wf(),
        ensures
            final(self).wf(),
            exists|i: int|
                0 <= i < final(self).strategies().len() && spec_default_strategy_shape(
                    #[trigger] final(self).strategies()[i],
                    spec_default_threshold(old(self).cfg()),
                ),
            forall|k: int|
                0 <= k < old(self).store().strats().len() ==> #[trigger] spec_store_strategy_loaded(
                    final(self).strategies(),
                    old(self).store().strats()[k],
                    spec_default_threshold(old(self).cfg()),
                ),
            forall|j: int|
                0 <= j < final(self).strategies().len() ==> #[trigger] spec_loaded_provenance(
                    final(self).strategies()[j],
                    old(self).strategies(),
                    old(self).store().strats(),
                    spec_default_threshold(old(self).cfg()),
                ),
            final(self).active() == old(self).active(),
            final(self).history() == old(self).history(),
            final(self).store() == old(self).store(),
            final(self).cfg() == old(self).cfg(),
    {
        let threshold: u128 = if self.config.arbitrage.min_profit_threshold > 0 {
            self.config.arbitrage.min_profit_threshold as u128
        } else {
            10_000
        };
        proof {
            assert(threshold == spec_default_threshold(old(self).cfg()));
        }
        let stored = self.memory_store.get_strategies();
        let mut j: usize = 0;
        proof {
            assert forall|t: int| 0 <= t < self.strategies@.len() implies #[trigger]
                spec_loaded_provenance(
                self.strategies@[t],
                old(self).strategies(),
                old(self).store().strats(),
                threshold,
            ) by {
                assert(old(self).strategies()[t] == self.strategies@[t]);
            }
        }
        while j < stored.len()
            invariant
                0 <= j <= stored@.len(),
                old(self).wf(),
                threshold == spec_default_threshold(old(self).cfg()),
                spec_unique_engine_strat_ids(self.strategies@),
                forall|k: int| 0 <= k < stored@.len() ==> spec_strategy_congruent(
                    #[trigger] stored@[k],
                    old(self).store().strats()[k],
                ),
                stored@.len() == old(self).store().strats().len(),
                forall|k: int|
                    0 <= k < j ==> #[trigger] spec_store_strategy_loaded(
                        self.strategies@,
                        old(self).store().strats()[k],
                        threshold,
                    ),
                forall|t: int|
                    0 <= t < self.strategies@.len() ==> #[trigger] spec_loaded_provenance(
                        self.strategies@[t],
                        old(self).strategies(),
                        old(self).store().strats(),
                        threshold,
                    ),
                self.active_opportunities@ == old(self).active(),
                self.executions@ == old(self).history(),
                self.memory_store == old(self).store(),
                self.config == old(self).cfg(),
            decreases stored@.len() - j,
        {
            let ghost pre = self.strategies@;
            let ghost store_entries = old(self).store().strats();
            let next = stored[j].clone();
            proof {
                assert(next.id@ == stored@[j as int].id@);
                assert(spec_strategy_congruent(next, store_entries[j as int]));
            }
            let ghost next_snapshot = next;
            self.upsert_strategy(next);
            proof {
                let cur = self.strategies@;
                let inserted_at: int = if spec_contains_strat_id(pre, next_snapshot.id@) {
                    spec_find_strat_id(pre, next_snapshot.id@)
                } else {
                    pre.len() as int
                };
                assert(cur[inserted_at] == next_snapshot);
                assert(forall|t: int|
                    0 <= t < cur.len() && t != inserted_at ==> cur[t] == pre[t]);
                assert forall|k: int| 0 <= k < j + 1 implies #[trigger] spec_store_strategy_loaded(
                    cur,
                    store_entries[k],
                    threshold,
                ) by {
                    if k == j as int {
                        assert(cur[inserted_at].id@ == store_entries[k].id@);
                    } else {
                        assert(spec_store_strategy_loaded(pre, store_entries[k], threshold));
                        let w = choose|w: int|
                            0 <= w < pre.len() && (#[trigger] pre[w]).id@ == store_entries[k].id@
                                && (spec_strategy_congruent(pre[w], store_entries[k])
                                || spec_default_strategy_shape(pre[w], threshold));
                        if w == inserted_at {
                            assert(store_entries[k].id@ != store_entries[j as int].id@);
                            assert(pre[w].id@ == next_snapshot.id@);
                            assert(false);
                        }
                        assert(cur[w] == pre[w]);
                    }
                }
                assert forall|t: int| 0 <= t < cur.len() implies #[trigger] spec_loaded_provenance(
                    cur[t],
                    old(self).strategies(),
                    store_entries,
                    threshold,
                ) by {
                    if t == inserted_at {
                        assert(spec_strategy_congruent(cur[t], store_entries[j as int]));
                    } else {
                        assert(cur[t] == pre[t]);
                    }
                }
            }
            j = j + 1;
        }
        let slippage: u128 = self.config.arbitrage.max_slippage;
        let mut dexes: Vec<DexType> = Vec::new();
        dexes.push(DexType::Raydium);
        dexes.push(DexType::Meteora);
        dexes.push(DexType::Whirlpool);
        dexes.push(DexType::Pump);
        let default_strategy = ArbitrageStrategy::new(
            String::from_str("default"),
            String::from_str("Default arbitrage strategy"),
            threshold,
            slippage,
            5_000,
            1_000,
            dexes,
            RiskScore::Medium,
            now,
        );
        let ghost default_snapshot = default_strategy;
        let ghost pre = self.strategies@;
        let ghost store_entries = old(self).store().strats();
        self.upsert_strategy(default_strategy);
        proof {
            assert(spec_default_strategy_shape(default_snapshot, threshold));
            let cur = self.strategies@;
            let inserted_at: int = if spec_contains_strat_id(pre, default_snapshot.id@) {
                spec_find_strat_id(pre, default_snapshot.id@)
            } else {
                pre.len() as int
            };
            assert(cur[inserted_at] == default_snapshot);
            assert(forall|t: int| 0 <= t < cur.len() && t != inserted_at ==> cur[t] == pre[t]);
            assert forall|k: int| 0 <= k < store_entries.len() implies #[trigger]
                spec_store_strategy_loaded(cur, store_entries[k], threshold) by {
                assert(spec_store_strategy_loaded(pre, store_entries[k], threshold));
                let w = choose|w: int|
                    0 <= w < pre.len() && (#[trigger] pre[w]).id@ == store_entries[k].id@ && (
                    spec_strategy_congruent(pre[w], store_entries[k])
                        || spec_default_strategy_shape(pre[w], threshold));
                if w == inserted_at {
                    assert(cur[w].id@ == pre[w].id@);
                    assert(spec_default_strategy_shape(cur[w], threshold));
                } else {
                    assert(cur[w] == pre[w]);
                }
            }
            assert forall|t: int| 0 <= t < cur.len() implies #[trigger] spec_loaded_provenance(
                cur[t],
                old(self).strategies(),
                store_entries,
                threshold,
            ) by {
                if t == inserted_at {
                } else {
                    assert(cur[t] == pre[t]);
                }
            }
        }
    }

    /// Handle one inbound opportunity: discard it when it is expired, no
    /// strategy wants it, its id is already active, or its profit is too
    /// small; otherwise register it as active, save it to the store, and
    /// hand back a fresh pending execution record for the executor.
    pub fn process_opportunity(&mut self, opportunity: ArbitrageOpportunity, now: i64) -> (r:
        Option<ArbitrageExecution>)
        requires
            old(self).wf(),
            old(self).store().counters().total_opportunities < u64::MAX,
        ensures
            final(self).wf(),
            r is Some <==> spec_engine_accepts(
                old(self).strategies(),
                old(self).active(),
                old(self).cfg().arbitrage.min_profit_threshold,
                opportunity,
                now as int,
            ),
            r is None ==> final(self).active() == old(self).active() && final(self).store()
                == old(self).store(),
            r is Some ==> final(self).active() == old(self).active().push(opportunity),
            r is Some ==> final(self).store().opps() == spec_save_opportunity(
                old(self).store().opps(),
                opportunity,
                old(self).store().max_opps(),
            ),
            r is Some ==> ({
                let e = r->0;
                &&& e.id@.len() == 36
                &&& e.opportunity == opportunity
                &&& e.execution_status is Pending
                &&& e.execution_time == now
                &&& e.transaction_signature is None
                &&& e.actual_profit is None
                &&& e.total_cost is None
            }),
            final(self).strategies() == old(self).strategies(),
            final(self).history() == old(self).history(),
            final(self).cfg() == old(self).cfg(),
            final(self).store().strats() == old(self).store().strats(),
            final(self).store().execs() == old(self).store().execs(),
            final(self).store().max_opps() == old(self).store().max_opps(),
            final(self).store().max_execs() == old(self).store().max_execs(),
    {
        if opportunity.is_expired(now) {
            return None;
        }
        let mut found: bool = false;
        let mut i: usize = 0;
        while i < self.strategies.len()
            invariant
                *self == *old(self),
                old(self).wf(),
                0 <= i <= self.strategies().len(),
                found == exists|k: int|
                    0 <= k < i && spec_strategy_suitable(
                        #[trigger] self.strategies()[k],
                        opportunity,
                    ),
            decreases self.strategies().len() - i,
        {
            if self.strategies[i].is_opportunity_suitable(&opportunity) {
                found = true;
            }
            i = i + 1;
        }
        if !found {
            return None;
        }
        let mut j: usize = 0;
        while j < self.active_opportunities.len()
            invariant
                *self == *old(self),
                old(self).wf(),
                0 <= j <= self.active().len(),
                forall|k: int| 0 <= k < j ==> self.active()[k].id@ != opportunity.id@,
            decreases self.active().len() - j,
        {
            if self.active_opportunities[j].id == opportunity.id {
                proof {
                    assert(spec_contains_opp_id(self.active(), opportunity.id@));
                }
                return None;
            }
            j = j + 1;
        }
        if !opportunity.is_profitable(self.config.arbitrage.min_profit_threshold) {
            return None;
        }
        proof {
            assert(spec_engine_accepts(
                old(self).strategies(),
                old(self).active(),
                old(self).cfg().arbitrage.min_profit_threshold,
                opportunity,
                now as int,
            ));
        }
        self.active_opportunities.push(opportunity.clone());
        proof {
            assert forall|a: int, b: int|
                #![trigger self.active_opportunities@[a], self.active_opportunities@[b]]
                0 <= a < b < self.active_opportunities@.len() implies
                self.active_opportunities@[a].id@ != self.active_opportunities@[b].id@ by {
                if b == self.active_opportunities@.len() - 1 {
                    assert(self.active_opportunities@[a] == old(self).active()[a]);
                    if self.active_opportunities@[a].id@ == opportunity.id@ {
                        assert(spec_contains_opp_id(old(self).active(), opportunity.id@));
                    }
                } else {
                    assert(self.active_opportunities@[a] == old(self).active()[a]);
                    assert(self.active_opportunities@[b] == old(self).active()[b]);
                }
            }
            assert(spec_unique_opp_ids(self.active_opportunities@));
        }
        self.memory_store.save_opportunity(&opportunity);
        let execution = ArbitrageExecution::new(opportunity, now);
        Some(execution)
    }

    /// Fold one execution result back: the matching active opportunity
    /// (if any) takes the status the outcome maps to, the record is
    /// persisted to the store, and the history grows by a copy of it.
    pub fn process_execution(&mut self, execution: ArbitrageExecution)
        requires
            old(self).wf(),
            old(self).store().counters().total_executions < u64::MAX,
            old(self).store().counters().successful_executions < u64::MAX,
            old(self).store().counters().total_profit + (match execution.actual_profit {
                Some(p) => p as int,
                None => 0,
            }) <= u64::MAX,
            old(self).store().counters().total_fees + (match execution.total_cost {
                Some(c) => c as int,
                None => 0,
            }) <= u64::MAX,
            old(self).history().len() < usize::MAX,
        ensures
            final(self).wf(),
            spec_contains_opp_id(old(self).active(), execution.opportunity.id@) ==> final(self).active() == old(self).active().update(
                spec_find_opp_id(old(self).active(), execution.opportunity.id@),
                ArbitrageOpportunity {
                    status: spec_status_of_outcome(execution.execution_status),
                    ..old(self).active()[spec_find_opp_id(
                        old(self).active(),
                        execution.opportunity.id@,
                    )]
                },
            ),
            !spec_contains_opp_id(old(self).active(), execution.opportunity.id@) ==> final(self).active() == old(self).active(),
            final(self).store().execs() == spec_save_execution(
                old(self).store().execs(),
                execution,
                old(self).store().max_execs(),
            ),
            final(self).history().len() == old(self).history().len() + 1,
            final(self).history().take(old(self).history().len() as int) == old(self).history(),
            spec_execution_congruent(final(self).history().last(), execution),
            final(self).strategies() == old(self).strategies(),
            final(self).cfg() == old(self).cfg(),
            final(self).store().opps() == old(self).store().opps(),
            final(self).store().strats() == old(self).store().strats(),
            final(self).store().max_opps() == old(self).store().max_opps(),
            final(self).store().max_execs() == old(self).store().max_execs(),
    {
        let new_status = match execution.execution_status {
            ExecutionStatus::Confirmed => OpportunityStatus::Completed,
            ExecutionStatus::Failed => OpportunityStatus::Failed,
            ExecutionStatus::Cancelled => OpportunityStatus::Expired,
            _ => OpportunityStatus::Pending,
        };
        let mut j: usize = 0;
        let n = self.active_opportunities.len();
        let mut found_at: Option<usize> = None;
        while j < n
            invariant
                0 <= j <= self.active().len(),
                n == self.active().len(),
                found_at is None ==> forall|k: int|
                    0 <= k < j ==> self.active()[k].id@ != execution.opportunity.id@,
                found_at is Some ==> 0 <= found_at->0 < self.active().len() && self.active()[
                    found_at->0 as int].id@ == execution.opportunity.id@,
            decreases self.active().len() - j,
        {
            if found_at.is_none() && self.active_opportunities[j].id == execution.opportunity.id {
                found_at = Some(j);
            }
            j = j + 1;
        }
        match found_at {
            Some(idx) => {
                proof {
                    let s = self.active_opportunities@;
                    let k = spec_find_opp_id(s, execution.opportunity.id@);
                    assert(0 <= k < s.len() && s[k].id@ == execution.opportunity.id@);
                    if k != idx {
                        assert(s[idx as int].id@ == s[k].id@);
                        assert(false);
                    }
                }
                let mut updated = self.active_opportunities[idx].clone();
                updated.update_status(new_status);
                vstd::pervasive::VecAdditionalExecFns::set(
                    &mut self.active_opportunities,
                    idx,
                    updated,
                );
            },
            None => {},
        }
        let history_copy = execution.clone();
        self.memory_store.save_execution(execution);
        self.executions.push(history_copy);
    }

    /// One expiry pass at `now`: every active entry past its expiry is
    /// removed from the active set, and its entry in the store (where
    /// present) is marked `Expired`.
    pub fn cleanup_expired_opportunities(&mut self, now: i64)
        requires
            old(self).wf(),
        ensures
            final(self).wf(),
            final(self).active() == spec_keep_unexpired(old(self).active(), now as int),
            final(self).store().opps() == spec_mark_ids(
                old(self).store().opps(),
                spec_expired_ids(old(self).active(), now as int),
            ),
            final(self).strategies() == old(self).strategies(),
            final(self).history() == old(self).history(),
            final(self).cfg() == old(self).cfg(),
            final(self).store().strats() == old(self).store().strats(),
            final(self).store().execs() == old(self).store().execs(),
            final(self).store().counters() == old(self).store().counters(),
            final(self).store().max_opps() == old(self).store().max_opps(),
            final(self).store().max_execs() == old(self).store().max_execs(),
    {
        let ghost old_active = self.active_opportunities@;
        let ghost old_store_opps = self.memory_store.opps();
        let mut k: usize = 0;
        proof {
            assert(old_active.take(0) =~= Seq::<ArbitrageOpportunity>::empty());
            assert(old_active.skip(0) =~= old_active);
        }
        while k < self.active_opportunities.len()
            invariant
                0 <= k,
                k <= self.active_opportunities@.len(),
                old_active == old(self).active(),
                old_store_opps == old(self).store().opps(),
                spec_unique_opp_ids(old_active),
                self.memory_store.wf(),
                self.strategies@ == old(self).strategies(),
                self.executions@ == old(self).history(),
                self.config == old(self).cfg(),
                self.memory_store.strats() == old(self).store().strats(),
                self.memory_store.execs() == old(self).store().execs(),
                self.memory_store.counters() == old(self).store().counters(),
                self.memory_store.max_opps() == old(self).store().max_opps(),
                self.memory_store.max_execs() == old(self).store().max_execs(),
                exists|done: int|
                    0 <= done <= old_active.len() && k as int == spec_keep_unexpired(
                        old_active.take(done),
                        now as int,
                    ).len() && self.active_opportunities@ =~= spec_keep_unexpired(
                        old_active.take(done),
                        now as int,
                    ) + old_active.skip(done) && self.memory_store.opps() == spec_mark_ids(
                        old_store_opps,
                        spec_expired_ids(old_active.take(done), now as int),
                    ),
            decreases self.active_opportunities@.len() - k,
        {
            let ghost done = choose|done: int|
                0 <= done <= old_active.len() && k as int == spec_keep_unexpired(
                    old_active.take(done),
                    now as int,
                ).len() && self.active_opportunities@ =~= spec_keep_unexpired(
                    old_active.take(done),
                    now as int,
                ) + old_active.skip(done) && self.memory_store.opps() == spec_mark_ids(
                    old_store_opps,
                    spec_expired_ids(old_active.take(done), now as int),
                );
            proof {
                assert(done < old_active.len());
                assert(self.active_opportunities@[k as int] == old_active[done]);
                assert(old_active.take(done + 1).drop_last() =~= old_active.take(done));
                assert(old_active.take(done + 1).last() == old_active[done]);
                assert(old_active.skip(done).drop_first() =~= old_active.skip(done + 1));
            }
            if self.active_opportunities[k].is_expired(now) {
                let removed = self.active_opportunities.remove(k);
                self.memory_store.update_opportunity_status(
                    &removed.id,
                    OpportunityStatus::Expired,
                );
                proof {
                    let pre_keep = spec_keep_unexpired(old_active.take(done), now as int);
                    assert(spec_keep_unexpired(old_active.take(done + 1), now as int)
                        == pre_keep);
                    assert(self.active_opportunities@ =~= pre_keep + old_active.skip(done + 1));
                    let pre_ids = spec_expired_ids(old_active.take(done), now as int);
                    assert(spec_expired_ids(old_active.take(done + 1), now as int)
                        == pre_ids.push(old_active[done].id@));
                    lemma_mark_ids_push(old_store_opps, pre_ids, old_active[done].id@);
                    assert(removed.id@ == old_active[done].id@);
                    assert(self.memory_store.opps() == spec_mark_ids(
                        old_store_opps,
                        spec_expired_ids(old_active.take(done + 1), now as int),
                    ));
                }
            } else {
                k = k + 1;
                proof {
                    let pre_keep = spec_keep_unexpired(old_active.take(done), now as int);
                    assert(spec_keep_unexpired(old_active.take(done + 1), now as int)
                        == pre_keep.push(old_active[done]));
                    assert(self.active_opportunities@ =~= spec_keep_unexpired(
                        old_active.take(done + 1),
                        now as int,
                    ) + old_active.skip(done + 1));
                    assert(spec_expired_ids(old_active.take(done + 1), now as int)
                        == spec_expired_ids(old_active.take(done), now as int));
                }
            }
        }
        proof {
            let done = choose|done: int|
                0 <= done <= old_active.len() && k as int == spec_keep_unexpired(
                    old_active.take(done),
                    now as int,
                ).len() && self.active_opportunities@ =~= spec_keep_unexpired(
                    old_active.take(done),
                    now as int,
                ) + old_active.skip(done) && self.memory_store.opps() == spec_mark_ids(
                    old_store_opps,
                    spec_expired_ids(old_active.take(done), now as int),
                );
            assert(done == old_active.len());
            assert(old_active.take(done) =~= old_active);
            assert(old_active.skip(done) =~= Seq::<ArbitrageOpportunity>::empty());
            assert(self.active_opportunities@ =~= spec_keep_unexpired(old_active, now as int));
            lemma_keep_unexpired_unique(old_active, now as int);
        }
    }

    /// Copies of the active opportunities, in registration order.
    pub fn get_active_opportunities(&self) -> (r: Vec<ArbitrageOpportunity>)
        ensures
            r@ == self.active(),
    {
        let mut result: Vec<ArbitrageOpportunity> = Vec::new();
        let mut i: usize = 0;
        while i < self.active_opportunities.len()
            invariant
                0 <= i <= self.active().len(),
                result@ =~= self.active().take(i as int),
            decreases self.active().len() - i,
        {
            result.push(self.active_opportunities[i].clone());
            i = i + 1;
        }
        proof {
            assert(self.active().take(i as int) =~= self.active());
        }
        result
    }

    /// On-demand metrics over the active set and the history: counts,
    /// profit and fee totals, net profit and the success share.
    pub fn get_metrics(&self, now: i64) -> (r: ArbitrageMetrics)
        requires
            self.active().len() <= u64::MAX,
            self.history().len() <= 9_000_000_000_000_000_000,
        ensures
            r.total_opportunities == self.active().len(),
            r.executed_opportunities == self.history().len(),
            r.successful_executions as int == crate::executor::spec_count_status(
                self.history(),
                ExecutionStatus::Confirmed,
            ),
            r.total_profit as int == spec_profit_sum(self.history()),
            r.total_fees as int == spec_fee_sum(self.history()),
            r.net_profit == r.total_profit as i128 - r.total_fees as i128,
            self.history().len() == 0 ==> r.success_rate == 0,
            self.history().len() > 0 ==> r.success_rate as int == (r.successful_executions as int
                * 1_000_000) / self.history().len() as int,
            r.average_execution_time is None,
            r.timestamp == now,
    {
        let total_opportunities: u64 = self.active_opportunities.len() as u64;
        let executed: u64 = self.executions.len() as u64;
        let mut successful: u64 = 0;
        let mut total_profit: u128 = 0;
        let mut total_fees: u128 = 0;
        let mut i: usize = 0;
        proof {
            assert(self.history().take(0) =~= Seq::<ArbitrageExecution>::empty());
        }
        while i < self.executions.len()
            invariant
                0 <= i <= self.history().len(),
                self.history().len() <= 9_000_000_000_000_000_000,
                successful as int == crate::executor::spec_count_status(
                    self.history().take(i as int),
                    ExecutionStatus::Confirmed,
                ),
                total_profit as int == spec_profit_sum(self.history().take(i as int)),
                total_fees as int == spec_fee_sum(self.history().take(i as int)),
                total_profit <= i * (u64::MAX as int),
                total_fees <= i * (u64::MAX as int),
            decreases self.history().len() - i,
        {
            proof {
                assert(self.history().take(i + 1).drop_last() =~= self.history().take(i as int));
                assert(self.history().take(i + 1).last() == self.history()[i as int]);
                crate::executor::lemma_count_status_le(
                    self.history().take(i as int),
                    ExecutionStatus::Confirmed,
                );
                assert((i + 1) * (u64::MAX as int) == i * (u64::MAX as int) + u64::MAX as int)
                    by (nonlinear_arith);
            }
            if matches!(self.executions[i].execution_status, ExecutionStatus::Confirmed) {
                successful = successful + 1;
            }
            match self.executions[i].actual_profit {
                Some(p) => { total_profit = total_profit + p as u128 },
                None => {},
            }
            match self.executions[i].total_cost {
                Some(c) => { total_fees = total_fees + c as u128 },
                None => {},
            }
            i = i + 1;
        }
        proof {
            assert(self.history().take(i as int) =~= self.history());
            assert(9_000_000_000_000_000_000int * (u64::MAX as int) <= i128::MAX as int)
                by (nonlinear_arith);
            crate::units::lemma_mul_bounds(
                i as int,
                u64::MAX as int,
                9_000_000_000_000_000_000,
                u64::MAX as int,
            );
        }
        let net_profit: i128 = total_profit as i128 - total_fees as i128;
        let success_rate: u128 = if executed > 0 {
            proof {
                crate::executor::lemma_count_status_le(
                    self.history(),
                    ExecutionStatus::Confirmed,
                );
                crate::units::lemma_mul_bounds(
                    successful as int,
                    1_000_000,
                    u64::MAX as int,
                    1_000_000,
                );
            }
            (successful as u128 * 1_000_000) / (executed as u128)
        } else {
            0
        };
        ArbitrageMetrics {
            total_opportunities,
            executed_opportunities: executed,
            successful_executions: successful,
            total_profit,
            total_fees,
            net_profit,
            success_rate,
            average_execution_time: None,
            timestamp: now,
        }
    }

    /// Register a strategy with the engine and persist it to the store.
    pub fn add_strategy(&mut self, strategy: ArbitrageStrategy)
        requires
            old(self).wf(),
        ensures
            final(self).wf(),
            spec_contains_strat_id(old(self).strategies(), strategy.id@) ==> final(self).strategies() == old(self).strategies().update(
                spec_find_strat_id(old(self).strategies(), strategy.id@),
                strategy,
            ),
            !spec_contains_strat_id(old(self).strategies(), strategy.id@) ==> final(self).strategies() == old(self).strategies().push(strategy),
            spec_contains_strat_id(old(self).store().strats(), strategy.id@) ==> ({
                let k = spec_find_strat_id(old(self).store().strats(), strategy.id@);
                final(self).store().strats().len() == old(self).store().strats().len()
                    && spec_strategy_congruent(final(self).store().strats()[k], strategy)
            }),
            !spec_contains_strat_id(old(self).store().strats(), strategy.id@) ==> final(self).store().strats().len() == old(self).store().strats().len() + 1
                && spec_strategy_congruent(final(self).store().strats().last(), strategy),
            final(self).active() == old(self).active(),
            final(self).history() == old(self).history(),
            final(self).cfg() == old(self).cfg(),
            final(self).store().opps() == old(self).store().opps(),
            final(self).store().execs() == old(self).store().execs(),
            final(self).store().counters() == old(self).store().counters(),
            final(self).store().max_opps() == old(self).store().max_opps(),
            final(self).store().max_execs() == old(self).store().max_execs(),
    {
        let store_copy = strategy.clone();
        proof {
            assert(store_copy.id@ == strategy.id@);
        }
        self.upsert_strategy(strategy);
        self.memory_store.save_strategy(store_copy);
    }

    /// Replace a strategy wholesale; the same operation as adding it.
    pub fn update_strategy(&mut self, strategy: ArbitrageStrategy)
        requires
            old(self).wf(),
        ensures
            final(self).wf(),
            spec_contains_strat_id(old(self).strategies(), strategy.id@) ==> final(self).strategies() == old(self).strategies().update(
                spec_find_strat_id(old(self).strategies(), strategy.id@),
                strategy,
            ),
            !spec_contains_strat_id(old(self).strategies(), strategy.id@) ==> final(self).strategies() == old(self).strategies().push(strategy),
            final(self).active() == old(self).active(),
            final(self).history() == old(self).history(),
            final(self).cfg() == old(self).cfg(),
            final(self).store().opps() == old(self).store().opps(),
            final(self).store().execs() == old(self).store().execs(),
            final(self).store().max_opps() == old(self).store().max_opps(),
            final(self).store().max_execs() == old(self).store().max_execs(),
    {
        self.add_strategy(strategy);
    }

    /// Remove the strategy with this id from the engine and the store; a
    /// miss changes nothing.
    pub fn remove_strategy(&mut self, strategy_id: &String)
        requires
            old(self).wf(),
        ensures
            final(self).wf(),
            spec_contains_strat_id(old(self).strategies(), strategy_id@) ==> final(self).strategies() == old(self).strategies().remove(
                spec_find_strat_id(old(self).strategies(), strategy_id@),
            ),
            !spec_contains_strat_id(old(self).strategies(), strategy_id@) ==> final(self).strategies() == old(self).strategies() && final(self).store().strats() == old(self).store().strats(),
            final(self).active() == old(self).active(),
            final(self).history() == old(self).history(),
            final(self).cfg() == old(self).cfg(),
            final(self).store().opps() == old(self).store().opps(),
            final(self).store().execs() == old(self).store().execs(),
            final(self).store().max_opps() == old(self).store().max_opps(),
            final(self).store().max_execs() == old(self).store().max_execs(),
    {
        match self.find_strategy_index(strategy_id) {
            Some(i) => {
                proof {
                    let s = self.strategies@;
                    let k = spec_find_strat_id(s, strategy_id@);
                    assert(0 <= k < s.len() && s[k].id@ == strategy_id@);
                    if k != i {
                        assert(s[i as int].id@ == s[k].id@);
                        assert(false);
                    }
                }
                self.strategies.remove(i);
                proof {
                    assert(spec_unique_strat_ids(self.strategies@));
                }
                self.memory_store.delete_strategy(strategy_id);
            },
            None => {},
        }
    }

    /// The execution history, newest first, cut to `limit` entries when
    /// one is given: a permutation of the newest (limited) records, each
    /// a copy of its history entry.
    #[verifier::rlimit(100)]
    pub fn get_execution_history(&self, limit: Option<usize>) -> (r: Vec<ArbitrageExecution>)
        ensures
            r@.len() == (match limit {
                Some(l) => if l <= self.history().len() {
                    l as int
                } else {
                    self.history().len() as int
                },
                None => self.history().len() as int,
            }),
            forall|a: int, b: int|
                #![trigger r@[a], r@[b]]
                0 <= a < b < r@.len() ==> r@[a].execution_time >= r@[b].execution_time,
            spec_is_history_selection(r@, self.history()),
    {
        let mut sorted: Vec<ArbitrageExecution> = Vec::new();
        let ghost mut perm: Seq<int> = Seq::empty();
        let mut i: usize = 0;
        while i < self.executions.len()
            invariant
                0 <= i <= self.history().len(),
                sorted@.len() == i,
                perm.len() == i,
                forall|a: int| 0 <= a < perm.len() ==> 0 <= #[trigger] perm[a] < i,
                forall|a: int, b: int| 0 <= a < b < perm.len() ==> perm[a] != perm[b],
                forall|a: int|
                    0 <= a < perm.len() ==> spec_execution_congruent(
                        sorted@[a],
                        self.history()[#[trigger] perm[a]],
                    ),
                forall|k: int| 0 <= k < i ==> #[trigger] perm.contains(k),
                forall|a: int, b: int|
                    #![trigger sorted@[a], sorted@[b]]
                    0 <= a < b < sorted@.len() ==> sorted@[a].execution_time
                        >= sorted@[b].execution_time,
            decreases self.history().len() - i,
        {
            let entry = self.executions[i].clone();
            proof {
                assert(spec_execution_congruent(entry, self.history()[i as int]));
            }
            let mut pos: usize = 0;
            while pos < sorted.len() && sorted[pos].execution_time >= entry.execution_time
                invariant
                    0 <= pos <= sorted@.len(),
                    forall|a: int| 0 <= a < pos ==> #[trigger] sorted@[a].execution_time
                        >= entry.execution_time,
                decreases sorted@.len() - pos,
            {
                pos = pos + 1;
            }
            let ghost before = sorted@;
            let ghost before_perm = perm;
            sorted.insert(pos, entry);
            proof {
                perm = before_perm.take(pos as int) + seq![i as int] + before_perm.skip(
                    pos as int,
                );
                let cur = sorted@;
                assert(perm.len() == before_perm.len() + 1);
                assert(forall|a: int| 0 <= a < pos ==> cur[a] == before[a]);
                assert(forall|a: int| pos < a < cur.len() ==> cur[a] == before[a - 1]);
                assert(forall|a: int| 0 <= a < pos ==> perm[a] == before_perm[a]);
                assert(perm[pos as int] == i as int);
                assert(forall|a: int| pos < a < perm.len() ==> perm[a] == before_perm[a - 1]);
                assert forall|a: int, b: int| 0 <= a < b < cur.len() implies cur[a].execution_time
                    >= cur[b].execution_time by {
                    if b < pos {
                    } else if a == pos as int || b == pos as int {
                        if (pos as int) < before.len() && (pos as int) < b {
                            assert(before[pos as int].execution_time < entry.execution_time);
                        }
                    } else {
                    }
                }
                assert forall|a: int, b: int| 0 <= a < b < perm.len() implies perm[a]
                    != perm[b] by {
                    if a == pos as int {
                        assert(perm[b] == before_perm[b - 1]);
                    } else if b == pos as int {
                        assert(perm[a] == before_perm[a]);
                    }
                }
                assert forall|a: int| 0 <= a < perm.len() implies spec_execution_congruent(
                    cur[a],
                    self.history()[#[trigger] perm[a]],
                ) by {
                    if a < pos {
                    } else if a == pos as int {
                    } else {
                        assert(cur[a] == before[a - 1] && perm[a] == before_perm[a - 1]);
                    }
                }
                assert forall|k: int| 0 <= k < i + 1 implies #[trigger] perm.contains(k) by {
                    if k < i {
                        assert(before_perm.contains(k));
                        let w = choose|w: int|
                            0 <= w < before_perm.len() && before_perm[w] == k;
                        if w < pos {
                            assert(perm[w] == k);
                        } else {
                            assert(perm[w + 1] == k);
                        }
                    } else {
                        assert(perm[pos as int] == k);
                    }
                }
            }
            i = i + 1;
        }
        match limit {
            Some(l) => {
                if l <= sorted.len() {
                    let ghost full = sorted@;
                    let ghost full_perm = perm;
                    sorted.truncate(l);
                    proof {
                        let kept = full_perm.take(l as int);
                        assert(sorted@.len() == l);
                        assert(forall|a: int| 0 <= a < l ==> sorted@[a] == full[a]);
                        assert(forall|a: int| 0 <= a < l ==> kept[a] == full_perm[a]);
                        assert forall|k: int|
                            #![trigger self.history()[k]]
                            0 <= k < self.history().len() && !kept.contains(k) implies (forall|
                            a: int,
                        |
                            0 <= a < kept.len() ==> self.history()[k].execution_time
                                <= self.history()[#[trigger] kept[a]].execution_time) by {
                            assert(full_perm.contains(k));
                            let w = choose|w: int|
                                0 <= w < full_perm.len() && full_perm[w] == k;
                            if w < l {
                                assert(kept[w] == k);
                                assert(kept.contains(k));
                                assert(false);
                            }
                            assert forall|a: int| 0 <= a < kept.len() implies
                                self.history()[k].execution_time <= self.history()[
                                #[trigger] kept[a]].execution_time by {
                                assert(full[a].execution_time >= full[w].execution_time);
                                assert(spec_execution_congruent(full[a], self.history()[kept[a]]));
                                assert(spec_execution_congruent(full[w], self.history()[k]));
                            }
                        }
                        assert(spec_history_selection(sorted@, self.history(), kept));
                        assert forall|a: int, b: int|
                            #![trigger sorted@[a], sorted@[b]]
                            0 <= a < b < sorted@.len() implies sorted@[a].execution_time
                            >= sorted@[b].execution_time by {
                            assert(sorted@[a] == full[a]);
                            assert(sorted@[b] == full[b]);
                        }
                    }
                } else {
                    proof {
                        assert forall|k: int|
                            #![trigger self.history()[k]]
                            0 <= k < self.history().len() && !perm.contains(k) implies (forall|
                            a: int,
                        |
                            0 <= a < perm.len() ==> self.history()[k].execution_time
                                <= self.history()[#[trigger] perm[a]].execution_time) by {
                            assert(perm.contains(k));
                        }
                        assert(spec_history_selection(sorted@, self.history(), perm));
                    }
                }
            },
            None => {
                proof {
                    assert forall|k: int|
                        #![trigger self.history()[k]]
                        0 <= k < self.history().len() && !perm.contains(k) implies (forall|a: int|
                        0 <= a < perm.len() ==> self.history()[k].execution_time <= self.history()[
                            #[trigger] perm[a]].execution_time) by {
                        assert(perm.contains(k));
                    }
                    assert(spec_history_selection(sorted@, self.history(), perm));
                }
            },
        }
        sorted
    }

    /// Current store occupancy.
    pub fn get_storage_usage(&self) -> (r: StorageUsage)
        ensures
            r.opportunities_count == self.store().opps().len(),
            r.strategies_count == self.store().strats().len(),
            r.executions_count == self.store().execs().len(),
            r.max_opportunities as int == self.store().max_opps(),
            r.max_executions as int == self.store().max_execs(),
    {
        self.memory_store.get_storage_usage()
    }

    /// Search the store's opportunities; the same filter the store
    /// itself applies.
    pub fn search_opportunities(
        &self,
        min_profit: Option<i64>,
        max_risk: Option<RiskScore>,
        dex_types: Option<Vec<DexType>>,
    ) -> (r: Vec<ArbitrageOpportunity>)
        ensures
            r@ == spec_search_result(
                self.store().opps(),
                min_profit,
                max_risk,
                match dex_types {
                    Some(v) => Some(v@),
                    None => None,
                },
            ),
    {
        self.memory_store.search_opportunities(min_profit, max_risk, dex_types)
    }
}

/// The kept entries of an expiry pass still have pairwise-distinct ids.
pub proof fn lemma_keep_unexpired_unique(s: Seq<ArbitrageOpportunity>, now: int)
    requires
        spec_unique_opp_ids(s),
    ensures
        spec_unique_opp_ids(spec_keep_unexpired(s, now)),
        forall|i: int|
            0 <= i < spec_keep_unexpired(s, now).len() ==> s.contains(
                #[trigger] spec_keep_unexpired(s, now)[i],
            ),
    decreases s.len(),
{
    if s.len() > 0 {
        assert(spec_unique_opp_ids(s.drop_last())) by {
            assert(forall|i: int, j: int|
                0 <= i < j < s.drop_last().len() ==> s.drop_last()[i].id@ != s.drop_last()[j].id@);
        }
        lemma_keep_unexpired_unique(s.drop_last(), now);
        let prefix = spec_keep_unexpired(s.drop_last(), now);
        assert forall|i: int|
            0 <= i < prefix.len() implies s.contains(#[trigger] prefix[i]) by {
            assert(s.drop_last().contains(prefix[i]));
            let w = choose|w: int| 0 <= w < s.drop_last().len() && s.drop_last()[w] == prefix[i];
            assert(s[w] == prefix[i]);
        }
        if !(now > s.last().expiry) {
            let cur = prefix.push(s.last());
            assert forall|i: int, j: int| 0 <= i < j < cur.len() implies cur[i].id@
                != cur[j].id@ by {
                if j == cur.len() - 1 {
                    assert(s.drop_last().contains(prefix[i]));
                    let w = choose|w: int|
                        0 <= w < s.drop_last().len() && s.drop_last()[w] == prefix[i];
                    assert(s[w].id@ != s[s.len() - 1].id@);
                }
            }
        }
    }
}

/// Dedup law: once the engine has accepted an opportunity — so its id
/// sits in the active set — any later submission carrying the same id is
/// rejected, whatever the strategies, threshold or clock say.
pub proof fn lemma_engine_dedup(
    active: Seq<ArbitrageOpportunity>,
    accepted: ArbitrageOpportunity,
    resubmitted: ArbitrageOpportunity,
    strategies: Seq<ArbitrageStrategy>,
    min_profit_threshold: i64,
    now: int,
)
    requires
        resubmitted.id@ == accepted.id@,
    ensures
        !spec_engine_accepts(
            strategies,
            active.push(accepted),
            min_profit_threshold,
            resubmitted,
            now,
        ),
{
    let extended = active.push(accepted);
    assert(extended[extended.len() - 1].id@ == resubmitted.id@);
    assert(spec_contains_opp_id(extended, resubmitted.id@));
}

} // verus!
