//! The arbitrage data model: opportunities, routes, execution records,
//! strategies and metrics, with the risk-score derivation.

use vstd::prelude::*;
use crate::dex::{DexType, spec_contains_dex, contains_dex};
use crate::pool::{Pool, spec_price};
use crate::token::Token;
use crate::units::{SCALE, MILLIS_PER_HOUR, valid_timestamp, div_or_zero};

verus! {

/// How long a detected opportunity stays valid, in milliseconds.
pub const OPPORTUNITY_TTL_MILLIS: i64 = 30_000;

/// Ordinal danger rating of an opportunity.
#[derive(Clone, Copy, PartialEq, Eq, Structural, Debug, Hash)]
pub enum RiskScore {
    Low,
    Medium,
    High,
    Critical,
}

/// The rank of a risk score: `Low < Medium < High < Critical`.
pub open spec fn spec_risk_rank(r: RiskScore) -> int {
    match r {
        RiskScore::Low => 0,
        RiskScore::Medium => 1,
        RiskScore::High => 2,
        RiskScore::Critical => 3,
    }
}

impl RiskScore {
    /// The rank as a machine integer.
    pub fn rank(&self) -> (n: u8)
        ensures
            n as int == spec_risk_rank(*self),
    {
        match self {
            RiskScore::Low => 0,
            RiskScore::Medium => 1,
            RiskScore::High => 2,
            RiskScore::Critical => 3,
        }
    }

    /// Whether this risk is at most `other` in the `Low < Medium < High <
    /// Critical` order.
    pub fn le(&self, other: &RiskScore) -> (r: bool)
        ensures
            r == (spec_risk_rank(*self) <= spec_risk_rank(*other)),
    {
        self.rank() <= other.rank()
    }
}

/// Lifecycle state of an opportunity.
#[derive(Clone, Copy, PartialEq, Eq, Structural, Debug)]
pub enum OpportunityStatus {
    Pending,
    Executing,
    Completed,
    Failed,
    Expired,
    Cancelled,
}

/// Lifecycle state of an execution record. Terminal states are
/// `Confirmed`, `Failed` and `Cancelled`.
#[derive(Clone, Copy, PartialEq, Eq, Structural, Debug)]
pub enum ExecutionStatus {
    Pending,
    Executing,
    Submitted,
    Confirmed,
    Failed,
    Cancelled,
}

impl ExecutionStatus {
    /// Whether this state is terminal.
    pub fn is_terminal(&self) -> (r: bool)
        ensures
            r == spec_terminal(*self),
    {
        match self {
            ExecutionStatus::Confirmed | ExecutionStatus::Failed | ExecutionStatus::Cancelled =>
                true,
            _ => false,
        }
    }
}

/// Whether an execution state is terminal.
pub open spec fn spec_terminal(s: ExecutionStatus) -> bool {
    s is Confirmed || s is Failed || s is Cancelled
}

/// A pool snapshot is stale when its last update lies a full day or more
/// behind `now` (strictly more than 24 whole hours).
pub open spec fn spec_pool_stale(p: Pool, now: int) -> bool {
    now - p.last_updated >= 25 * MILLIS_PER_HOUR
}

/// Risk points of an opportunity: +2 per side with a reserve under 1000,
/// +1 for profit under 0.5%, +3 for profit over 5% (suspiciously high),
/// +1 for a stale buy-pool snapshot.
pub open spec fn spec_risk_points(
    buy_pool: Pool,
    sell_pool: Pool,
    profit_percentage: int,
    now: int,
) -> int {
    (if buy_pool.reserve_a < 1000 || buy_pool.reserve_b < 1000 {
        2int
    } else {
        0int
    }) + (if sell_pool.reserve_a < 1000 || sell_pool.reserve_b < 1000 {
        2int
    } else {
        0int
    }) + (if profit_percentage < 5_000 {
        1int
    } else if profit_percentage > 50_000 {
        3int
    } else {
        0int
    }) + (if spec_pool_stale(buy_pool, now) {
        1int
    } else {
        0int
    })
}

/// Mapping of risk points to the ordinal rating.
pub open spec fn spec_risk_level(points: int) -> RiskScore {
    if points <= 2 {
        RiskScore::Low
    } else if points <= 4 {
        RiskScore::Medium
    } else if points <= 6 {
        RiskScore::High
    } else {
        RiskScore::Critical
    }
}

/// The risk score an opportunity over these pools receives.
pub open spec fn spec_risk_score(
    buy_pool: Pool,
    sell_pool: Pool,
    profit_percentage: int,
    now: int,
) -> RiskScore {
    spec_risk_level(spec_risk_points(buy_pool, sell_pool, profit_percentage, now))
}

/// The price a pool gives for a mint, or zero when it is undefined.
pub open spec fn spec_price_or_zero(p: Pool, mint: u64) -> int {
    match spec_price(p, mint) {
        Some(v) => v,
        None => 0,
    }
}

/// Profit fraction of a gap, in millionths: `diff / base`, zero when the
/// base price is zero.
pub open spec fn spec_profit_fraction(diff: int, base: int) -> int {
    div_or_zero(diff * SCALE as int, base)
}

/// A detected, time-bounded price gap between a buy pool and a sell pool
/// for one token pair.
#[derive(Debug)]
pub struct ArbitrageOpportunity {
    pub id: String,
    pub base_token: Token,
    pub quote_token: Token,
    pub buy_pool: Pool,
    pub sell_pool: Pool,
    /// Millionths.
    pub buy_price: u128,
    /// Millionths.
    pub sell_price: u128,
    /// Millionths.
    pub price_difference: u128,
    /// Fraction in millionths.
    pub profit_percentage: u128,
    pub estimated_profit: u64,
    pub estimated_fees: u64,
    pub net_profit: i64,
    pub risk_score: RiskScore,
    /// Creation time, milliseconds since the Unix epoch.
    pub timestamp: i64,
    /// `timestamp + OPPORTUNITY_TTL_MILLIS`.
    pub expiry: i64,
    pub status: OpportunityStatus,
}

impl ArbitrageOpportunity {
    /// A fresh opportunity over the two pools, priced and risk-scored at
    /// `now`; its expiry is exactly `now + OPPORTUNITY_TTL_MILLIS`.
    pub fn new(
        base_token: Token,
        quote_token: Token,
        buy_pool: Pool,
        sell_pool: Pool,
        now: i64,
    ) -> (r: ArbitrageOpportunity)
        requires
            valid_timestamp(now as int),
        ensures
            r.id@.len() == 36,
            r.base_token == base_token,
            r.quote_token == quote_token,
            r.buy_pool == buy_pool,
            r.sell_pool == sell_pool,
            r.buy_price as int == spec_price_or_zero(buy_pool, base_token.mint),
            r.sell_price as int == spec_price_or_zero(sell_pool, base_token.mint),
            r.price_difference as int == (if r.sell_price > r.buy_price {
                r.sell_price - r.buy_price
            } else {
                0int
            }),
            r.profit_percentage as int == spec_profit_fraction(
                r.price_difference as int,
                r.buy_price as int,
            ),
            r.estimated_profit == 0,
            r.estimated_fees == 0,
            r.net_profit == 0,
            r.risk_score == spec_risk_score(
                buy_pool,
                sell_pool,
                r.profit_percentage as int,
                now as int,
            ),
            r.timestamp == now,
            r.expiry == now + OPPORTUNITY_TTL_MILLIS,
            r.status is Pending,
    {
        let buy_price: u128 = match buy_pool.get_price(&base_token) {
            Some(p) => p,
            None => 0,
        };
        let sell_price: u128 = match sell_pool.get_price(&base_token) {
            Some(p) => p,
            None => 0,
        };
        let price_difference: u128 = if sell_price > buy_price {
            sell_price - buy_price
        } else {
            0
        };
        let profit_percentage: u128 = if buy_price > 0 {
            proof {
                crate::units::lemma_mul_bounds(
                    price_difference as int,
                    SCALE as int,
                    crate::units::max_price(),
                    SCALE as int,
                );
                assert(price_difference * SCALE <= price_difference * SCALE * buy_price)
                    by (nonlinear_arith)
                    requires
                        buy_price >= 1,
                        price_difference >= 0,
                ;
                crate::units::lemma_div_bound(
                    price_difference as int * SCALE as int,
                    buy_price as int,
                    price_difference as int * SCALE as int,
                );
            }
            (price_difference * SCALE) / buy_price
        } else {
            0
        };
        let risk_score = Self::calculate_risk_score(&buy_pool, &sell_pool, profit_percentage, now);
        ArbitrageOpportunity {
            id: crate::ids::new_uuid_string(),
            base_token,
            quote_token,
            buy_pool,
            sell_pool,
            buy_price,
            sell_price,
            price_difference,
            profit_percentage,
            estimated_profit: 0,
            estimated_fees: 0,
            net_profit: 0,
            risk_score,
            timestamp: now,
            expiry: now + OPPORTUNITY_TTL_MILLIS,
            status: OpportunityStatus::Pending,
        }
    }

    /// The risk score for a gap over these pools, seen at `now`.
    pub fn calculate_risk_score(
        buy_pool: &Pool,
        sell_pool: &Pool,
        profit_percentage: u128,
        now: i64,
    ) -> (r: RiskScore)
        requires
            valid_timestamp(now as int),
        ensures
            r == spec_risk_score(*buy_pool, *sell_pool, profit_percentage as int, now as int),
    {
        let mut risk_score: u8 = 0;
        if buy_pool.reserve_a < 1000 || buy_pool.reserve_b < 1000 {
            risk_score += 2;
        }
        if sell_pool.reserve_a < 1000 || sell_pool.reserve_b < 1000 {
            risk_score += 2;
        }
        if profit_percentage < 5_000 {
            risk_score += 1;
        } else if profit_percentage > 50_000 {
            risk_score += 3;
        }
        if buy_pool.last_updated <= now - 25 * MILLIS_PER_HOUR {
            risk_score += 1;
        }
        if risk_score <= 2 {
            RiskScore::Low
        } else if risk_score <= 4 {
            RiskScore::Medium
        } else if risk_score <= 6 {
            RiskScore::High
        } else {
            RiskScore::Critical
        }
    }

    /// Whether the net profit clears the given threshold.
    pub fn is_profitable(&self, min_profit_threshold: i64) -> (r: bool)
        ensures
            r == (self.net_profit > min_profit_threshold),
    {
        self.net_profit > min_profit_threshold
    }

    /// Whether the opportunity has expired at `now`: true iff `now` lies
    /// strictly past its expiry.
    pub fn is_expired(&self, now: i64) -> (r: bool)
        ensures
            r == (now > self.expiry),
    {
        now > self.expiry
    }

    /// Replace the lifecycle status.
    pub fn update_status(&mut self, status: OpportunityStatus)
        ensures
            *final(self) == (ArbitrageOpportunity { status, ..*old(self) }),
    {
        self.status = status;
    }
}

impl Clone for ArbitrageOpportunity {
    fn clone(&self) -> (r: ArbitrageOpportunity)
        ensures
            r == *self,
    {
        ArbitrageOpportunity {
            id: self.id.clone(),
            base_token: self.base_token.clone(),
            quote_token: self.quote_token.clone(),
            buy_pool: self.buy_pool.clone(),
            sell_pool: self.sell_pool.clone(),
            buy_price: self.buy_price,
            sell_price: self.sell_price,
            price_difference: self.price_difference,
            profit_percentage: self.profit_percentage,
            estimated_profit: self.estimated_profit,
            estimated_fees: self.estimated_fees,
            net_profit: self.net_profit,
            risk_score: self.risk_score,
            timestamp: self.timestamp,
            expiry: self.expiry,
            status: self.status,
        }
    }
}

/// Sum of a sequence of amounts, as a mathematical integer.
pub open spec fn spec_sum(s: Seq<u64>) -> int
    decreases s.len(),
{
    if s.len() == 0 {
        0
    } else {
        spec_sum(s.drop_last()) + s.last()
    }
}

/// Extending a prefix by one element adds that element to its sum.
pub proof fn lemma_sum_take_succ(s: Seq<u64>, i: int)
    requires
        0 <= i < s.len(),
    ensures
        spec_sum(s.take(i + 1)) == spec_sum(s.take(i)) + s[i],
{
    assert(s.take(i + 1).drop_last() =~= s.take(i));
    assert(s.take(i + 1).last() == s[i]);
}

/// A prefix sum never exceeds the whole sum.
pub proof fn lemma_sum_prefix_le(s: Seq<u64>, i: int)
    requires
        0 <= i <= s.len(),
    ensures
        spec_sum(s.take(i)) <= spec_sum(s),
    decreases s.len() - i,
{
    if i == s.len() {
        assert(s.take(i) =~= s);
    } else {
        lemma_sum_take_succ(s, i);
        lemma_sum_prefix_le(s, i + 1);
    }
}

/// The mint a swap through `p` pays out, given the mint paid in.
pub open spec fn spec_next_mint(p: Pool, mint: u64) -> u64 {
    if mint == p.token_a.mint {
        p.token_b.mint
    } else {
        p.token_a.mint
    }
}

/// The amount left after routing `amount` of the token `mint` through the
/// pools in order; `None` as soon as one hop is undefined.
pub open spec fn spec_route_output(pools: Seq<Pool>, amount: u64, mint: u64) -> Option<u64>
    decreases pools.len(),
{
    if pools.len() == 0 {
        Some(amount)
    } else {
        match crate::pool::spec_output_amount(pools[0], amount, mint) {
            Some(out) => {
                if 0 <= out <= u64::MAX {
                    spec_route_output(pools.drop_first(), out as u64, spec_next_mint(pools[0], mint))
                } else {
                    None
                }
            },
            None => None,
        }
    }
}

/// An ordered sequence of pool hops realizing one trade, with its
/// expected and realized outputs and fees.
#[derive(Debug)]
pub struct ArbitrageRoute {
    pub id: String,
    pub pools: Vec<Pool>,
    pub input_token: Token,
    pub output_token: Token,
    pub input_amount: u64,
    pub expected_output: u64,
    pub actual_output: u64,
    pub fees: Vec<u64>,
    pub total_fees: u64,
    /// Millionths.
    pub price_impact: u128,
    /// Milliseconds since the Unix epoch.
    pub execution_time: Option<i64>,
}

/// The same route record, with the pool and fee lists compared by
/// contents.
pub open spec fn spec_route_congruent(a: ArbitrageRoute, b: ArbitrageRoute) -> bool {
    &&& a.id == b.id
    &&& a.pools@ == b.pools@
    &&& a.input_token == b.input_token
    &&& a.output_token == b.output_token
    &&& a.input_amount == b.input_amount
    &&& a.expected_output == b.expected_output
    &&& a.actual_output == b.actual_output
    &&& a.fees@ == b.fees@
    &&& a.total_fees == b.total_fees
    &&& a.price_impact == b.price_impact
    &&& a.execution_time == b.execution_time
}

impl ArbitrageRoute {
    /// A fresh route over the given hops, with no outputs or fees yet.
    pub fn new(pools: Vec<Pool>, input_token: Token, output_token: Token, input_amount: u64) -> (r:
        ArbitrageRoute)
        ensures
            r.id@.len() == 36,
            r.pools@ == pools@,
            r.input_token == input_token,
            r.output_token == output_token,
            r.input_amount == input_amount,
            r.expected_output == 0,
            r.actual_output == 0,
            r.fees@.len() == 0,
            r.total_fees == 0,
            r.price_impact == 0,
            r.execution_time is None,
    {
        ArbitrageRoute {
            id: crate::ids::new_uuid_string(),
            pools,
            input_token,
            output_token,
            input_amount,
            expected_output: 0,
            actual_output: 0,
            fees: Vec::new(),
            total_fees: 0,
            price_impact: 0,
            execution_time: None,
        }
    }

    /// Walk the hops, chaining each pool's swap output into the next, and
    /// record the final amount as the expected output. `None` — and no
    /// change — when the route is empty or any hop is undefined.
    pub fn calculate_expected_output(&mut self) -> (r: Option<u64>)
        requires
            forall|i: int|
                0 <= i < old(self).pools@.len() ==> old(self).pools@[i].fee_rate <= SCALE,
        ensures
            ({
                let route = spec_route_output(
                    old(self).pools@,
                    old(self).input_amount,
                    old(self).input_token.mint,
                );
                if old(self).pools@.len() == 0 || route is None {
                    r is None && *final(self) == *old(self)
                } else {
                    r == Some(route->0) && *final(self) == (ArbitrageRoute {
                        expected_output: route->0,
                        ..*old(self)
                    })
                }
            }),
    {
        if self.pools.len() == 0 {
            return None;
        }
        let ghost whole: Option<u64> = spec_route_output(
            self.pools@,
            self.input_amount,
            self.input_token.mint,
        );
        let mut current_amount: u64 = self.input_amount;
        let mut current_token: Token = self.input_token.clone();
        let mut i: usize = 0;
        proof {
            assert(self.pools@.skip(0) =~= self.pools@);
        }
        while i < self.pools.len()
            invariant
                0 <= i <= self.pools@.len(),
                *self == *old(self),
                forall|k: int| 0 <= k < self.pools@.len() ==> self.pools@[k].fee_rate <= SCALE,
                whole == spec_route_output(
                    old(self).pools@,
                    old(self).input_amount,
                    old(self).input_token.mint,
                ),
                spec_route_output(self.pools@.skip(i as int), current_amount, current_token.mint)
                    == whole,
            decreases self.pools@.len() - i,
        {
            let ghost rest = self.pools@.skip(i as int);
            assert(rest[0] == self.pools@[i as int]);
            let out = match self.pools[i].calculate_output_amount(current_amount, &current_token) {
                Some(o) => o,
                None => {
                    return None;
                },
            };
            let next_token: Token = if current_token.mint == self.pools[i].token_a.mint {
                self.pools[i].token_b.clone()
            } else {
                self.pools[i].token_a.clone()
            };
            proof {
                assert(rest.drop_first() =~= self.pools@.skip(i + 1));
            }
            current_amount = out;
            current_token = next_token;
            i = i + 1;
        }
        proof {
            assert(self.pools@.skip(i as int) =~= Seq::<Pool>::empty());
        }
        self.expected_output = current_amount;
        Some(current_amount)
    }

    /// Total of the recorded per-hop fees, stored and returned.
    pub fn calculate_total_fees(&mut self) -> (r: u64)
        requires
            spec_sum(old(self).fees@) <= u64::MAX,
        ensures
            r as int == spec_sum(old(self).fees@),
            *final(self) == (ArbitrageRoute { total_fees: r, ..*old(self) }),
    {
        let mut total: u64 = 0;
        let mut i: usize = 0;
        proof {
            assert(self.fees@.take(0) =~= Seq::<u64>::empty());
        }
        while i < self.fees.len()
            invariant
                0 <= i <= self.fees@.len(),
                *self == *old(self),
                spec_sum(old(self).fees@) <= u64::MAX,
                total as int == spec_sum(self.fees@.take(i as int)),
            decreases self.fees@.len() - i,
        {
            proof {
                lemma_sum_take_succ(self.fees@, i as int);
                lemma_sum_prefix_le(self.fees@, i as int + 1);
            }
            total = total + self.fees[i];
            i = i + 1;
        }
        proof {
            assert(self.fees@.take(i as int) =~= self.fees@);
        }
        self.total_fees = total;
        total
    }
}

impl Clone for ArbitrageRoute {
    fn clone(&self) -> (r: ArbitrageRoute)
        ensures
            spec_route_congruent(r, *self),
    {
        ArbitrageRoute {
            id: self.id.clone(),
            pools: self.pools.clone(),
            input_token: self.input_token.clone(),
            output_token: self.output_token.clone(),
            input_amount: self.input_amount,
            expected_output: self.expected_output,
            actual_output: self.actual_output,
            fees: self.fees.clone(),
            total_fees: self.total_fees,
            price_impact: self.price_impact,
            execution_time: self.execution_time,
        }
    }
}

/// The tracked attempt to realize one opportunity via a swap.
#[derive(Debug)]
pub struct ArbitrageExecution {
    pub id: String,
    pub opportunity: ArbitrageOpportunity,
    pub route: ArbitrageRoute,
    pub transaction_signature: Option<String>,
    pub execution_status: ExecutionStatus,
    pub gas_used: Option<u64>,
    pub gas_price: Option<u64>,
    pub total_cost: Option<u64>,
    pub actual_profit: Option<u64>,
    /// Milliseconds since the Unix epoch.
    pub execution_time: i64,
    pub error_message: Option<String>,
}

/// The same execution record, with its route compared by contents.
pub open spec fn spec_execution_congruent(a: ArbitrageExecution, b: ArbitrageExecution) -> bool {
    &&& a.id == b.id
    &&& a.opportunity == b.opportunity
    &&& spec_route_congruent(a.route, b.route)
    &&& a.transaction_signature == b.transaction_signature
    &&& a.execution_status == b.execution_status
    &&& a.gas_used == b.gas_used
    &&& a.gas_price == b.gas_price
    &&& a.total_cost == b.total_cost
    &&& a.actual_profit == b.actual_profit
    &&& a.execution_time == b.execution_time
    &&& a.error_message == b.error_message
}

impl ArbitrageExecution {
    /// A pending execution record for the given opportunity, created at
    /// `now`, with an empty single-hop placeholder route.
    pub fn new(opportunity: ArbitrageOpportunity, now: i64) -> (r: ArbitrageExecution)
        ensures
            r.id@.len() == 36,
            r.opportunity == opportunity,
            r.route.pools@.len() == 0,
            r.route.input_token == opportunity.base_token,
            r.route.output_token == opportunity.quote_token,
            r.route.input_amount == 0,
            r.transaction_signature is None,
            r.execution_status is Pending,
            r.gas_used is None,
            r.gas_price is None,
            r.total_cost is None,
            r.actual_profit is None,
            r.execution_time == now,
            r.error_message is None,
    {
        let route = ArbitrageRoute::new(
            Vec::new(),
            opportunity.base_token.clone(),
            opportunity.quote_token.clone(),
            0,
        );
        ArbitrageExecution {
            id: crate::ids::new_uuid_string(),
            opportunity,
            route,
            transaction_signature: None,
            execution_status: ExecutionStatus::Pending,
            gas_used: None,
            gas_price: None,
            total_cost: None,
            actual_profit: None,
            execution_time: now,
            error_message: None,
        }
    }
}

impl Clone for ArbitrageExecution {
    fn clone(&self) -> (r: ArbitrageExecution)
        ensures
            spec_execution_congruent(r, *self),
    {
        ArbitrageExecution {
            id: self.id.clone(),
            opportunity: self.opportunity.clone(),
            route: self.route.clone(),
            transaction_signature: crate::token::clone_opt_string(&self.transaction_signature),
            execution_status: self.execution_status,
            gas_used: self.gas_used,
            gas_price: self.gas_price,
            total_cost: self.total_cost,
            actual_profit: self.actual_profit,
            execution_time: self.execution_time,
            error_message: crate::token::clone_opt_string(&self.error_message),
        }
    }
}

/// A named, versioned filter policy for opportunities.
#[derive(Debug)]
pub struct ArbitrageStrategy {
    pub id: String,
    pub name: String,
    pub description: String,
    /// Fraction in millionths.
    pub min_profit_threshold: u128,
    /// Fraction in millionths.
    pub max_slippage: u128,
    /// Fraction in millionths.
    pub max_price_impact: u128,
    /// Token units.
    pub min_liquidity: u64,
    pub supported_dexes: Vec<DexType>,
    pub risk_tolerance: RiskScore,
    pub is_active: bool,
    /// Milliseconds since the Unix epoch.
    pub created_at: i64,
    pub updated_at: i64,
}

/// The same strategy, with its DEX list compared by contents.
pub open spec fn spec_strategy_congruent(a: ArbitrageStrategy, b: ArbitrageStrategy) -> bool {
    &&& a.id == b.id
    &&& a.name == b.name
    &&& a.description == b.description
    &&& a.min_profit_threshold == b.min_profit_threshold
    &&& a.max_slippage == b.max_slippage
    &&& a.max_price_impact == b.max_price_impact
    &&& a.min_liquidity == b.min_liquidity
    &&& a.supported_dexes@ == b.supported_dexes@
    &&& a.risk_tolerance == b.risk_tolerance
    &&& a.is_active == b.is_active
    &&& a.created_at == b.created_at
    &&& a.updated_at == b.updated_at
}

/// Suitability of an opportunity under a strategy: enough profit, a
/// tolerated risk, both pools on supported exchanges, and all four pool
/// reserves at or above the strategy's liquidity floor.
pub open spec fn spec_strategy_suitable(s: ArbitrageStrategy, o: ArbitrageOpportunity) -> bool {
    &&& o.profit_percentage >= s.min_profit_threshold
    &&& spec_risk_rank(o.risk_score) <= spec_risk_rank(s.risk_tolerance)
    &&& spec_contains_dex(s.supported_dexes@, o.buy_pool.dex_type)
    &&& spec_contains_dex(s.supported_dexes@, o.sell_pool.dex_type)
    &&& o.buy_pool.reserve_a >= s.min_liquidity
    &&& o.buy_pool.reserve_b >= s.min_liquidity
    &&& o.sell_pool.reserve_a >= s.min_liquidity
    &&& o.sell_pool.reserve_b >= s.min_liquidity
}

impl ArbitrageStrategy {
    /// A fresh, active strategy created at `now`.
    pub fn new(
        name: String,
        description: String,
        min_profit_threshold: u128,
        max_slippage: u128,
        max_price_impact: u128,
        min_liquidity: u64,
        supported_dexes: Vec<DexType>,
        risk_tolerance: RiskScore,
        now: i64,
    ) -> (r: ArbitrageStrategy)
        ensures
            r.id@.len() == 36,
            r.name == name,
            r.description == description,
            r.min_profit_threshold == min_profit_threshold,
            r.max_slippage == max_slippage,
            r.max_price_impact == max_price_impact,
            r.min_liquidity == min_liquidity,
            r.supported_dexes@ == supported_dexes@,
            r.risk_tolerance == risk_tolerance,
            r.is_active,
            r.created_at == now,
            r.updated_at == now,
    {
        ArbitrageStrategy {
            id: crate::ids::new_uuid_string(),
            name,
            description,
            min_profit_threshold,
            max_slippage,
            max_price_impact,
            min_liquidity,
            supported_dexes,
            risk_tolerance,
            is_active: true,
            created_at: now,
            updated_at: now,
        }
    }

    /// Whether the opportunity passes this strategy's filters.
    pub fn is_opportunity_suitable(&self, opportunity: &ArbitrageOpportunity) -> (r: bool)
        ensures
            r == spec_strategy_suitable(*self, *opportunity),
    {
        opportunity.profit_percentage >= self.min_profit_threshold
            && opportunity.risk_score.le(&self.risk_tolerance)
            && contains_dex(&self.supported_dexes, opportunity.buy_pool.dex_type)
            && contains_dex(&self.supported_dexes, opportunity.sell_pool.dex_type)
            && opportunity.buy_pool.reserve_a >= self.min_liquidity
            && opportunity.buy_pool.reserve_b >= self.min_liquidity
            && opportunity.sell_pool.reserve_a >= self.min_liquidity
            && opportunity.sell_pool.reserve_b >= self.min_liquidity
    }
}

impl Clone for ArbitrageStrategy {
    fn clone(&self) -> (r: ArbitrageStrategy)
        ensures
            spec_strategy_congruent(r, *self),
    {
        ArbitrageStrategy {
            id: self.id.clone(),
            name: self.name.clone(),
            description: self.description.clone(),
            min_profit_threshold: self.min_profit_threshold,
            max_slippage: self.max_slippage,
            max_price_impact: self.max_price_impact,
            min_liquidity: self.min_liquidity,
            supported_dexes: self.supported_dexes.clone(),
            risk_tolerance: self.risk_tolerance,
            is_active: self.is_active,
            created_at: self.created_at,
            updated_at: self.updated_at,
        }
    }
}

/// On-demand pipeline metrics.
#[derive(Debug)]
pub struct ArbitrageMetrics {
    pub total_opportunities: u64,
    pub executed_opportunities: u64,
    pub successful_executions: u64,
    pub total_profit: u128,
    pub total_fees: u128,
    pub net_profit: i128,
    /// Fraction in millionths.
    pub success_rate: u128,
    pub average_execution_time: Option<u64>,
    /// Milliseconds since the Unix epoch.
    pub timestamp: i64,
}

impl Clone for ArbitrageMetrics {
    fn clone(&self) -> (r: ArbitrageMetrics)
        ensures
            r == *self,
    {
        ArbitrageMetrics {
            total_opportunities: self.total_opportunities,
            executed_opportunities: self.executed_opportunities,
            successful_executions: self.successful_executions,
            total_profit: self.total_profit,
            total_fees: self.total_fees,
            net_profit: self.net_profit,
            success_rate: self.success_rate,
            average_execution_time: self.average_execution_time,
            timestamp: self.timestamp,
        }
    }
}

/// Monotonicity of the risk derivation in pool liquidity: starting from
/// any pools, lowering one reserve of either pool beneath 1000 units
/// (leaving everything else unchanged) never lowers the resulting risk
/// score.
pub proof fn lemma_risk_monotone_in_reserves(
    buy_pool: Pool,
    sell_pool: Pool,
    buy_pool2: Pool,
    sell_pool2: Pool,
    profit_percentage: int,
    now: int,
)
    requires
        buy_pool2 == (Pool {
            reserve_a: buy_pool2.reserve_a,
            reserve_b: buy_pool2.reserve_b,
            ..buy_pool
        }),
        sell_pool2 == (Pool {
            reserve_a: sell_pool2.reserve_a,
            reserve_b: sell_pool2.reserve_b,
            ..sell_pool
        }),
        buy_pool2.reserve_a <= buy_pool.reserve_a,
        buy_pool2.reserve_b <= buy_pool.reserve_b,
        sell_pool2.reserve_a <= sell_pool.reserve_a,
        sell_pool2.reserve_b <= sell_pool.reserve_b,
    ensures
        spec_risk_rank(spec_risk_score(buy_pool2, sell_pool2, profit_percentage, now))
            >= spec_risk_rank(spec_risk_score(buy_pool, sell_pool, profit_percentage, now)),
{
    let p1 = spec_risk_points(buy_pool, sell_pool, profit_percentage, now);
    let p2 = spec_risk_points(buy_pool2, sell_pool2, profit_percentage, now);
    assert(p2 >= p1);
}

} // verus!
