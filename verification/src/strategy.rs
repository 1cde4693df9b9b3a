//! Strategy policies: parameter sets, the base strategy with its filter,
//! sizing and scoring rules, preset factories, and the manager that ranks
//! every strategy's verdict on an opportunity.

use vstd::prelude::*;
use crate::arbitrage::{ArbitrageOpportunity, RiskScore, spec_risk_rank};
use crate::dex::{DexType, spec_contains_dex, contains_dex};
use crate::units::SCALE;

verus! {

/// The thresholds and sizing rules of one strategy. Fractions and
/// multipliers are in millionths; amounts in token units; delays in
/// seconds.
#[derive(Debug)]
pub struct StrategyParameters {
    pub min_profit_threshold: u128,
    pub max_slippage: u128,
    pub max_price_impact: u128,
    pub min_liquidity: u64,
    pub max_trade_amount: u64,
    pub position_size_multiplier: u128,
    pub supported_dexes: Vec<DexType>,
    pub max_risk_score: RiskScore,
    pub execution_delay_seconds: u64,
    pub max_retries: u32,
    pub retry_delay_seconds: u64,
}

/// The same parameter set, with the DEX list compared by contents.
pub open spec fn spec_params_congruent(a: StrategyParameters, b: StrategyParameters) -> bool {
    &&& a.min_profit_threshold == b.min_profit_threshold
    &&& a.max_slippage == b.max_slippage
    &&& a.max_price_impact == b.max_price_impact
    &&& a.min_liquidity == b.min_liquidity
    &&& a.max_trade_amount == b.max_trade_amount
    &&& a.position_size_multiplier == b.position_size_multiplier
    &&& a.supported_dexes@ == b.supported_dexes@
    &&& a.max_risk_score == b.max_risk_score
    &&& a.execution_delay_seconds == b.execution_delay_seconds
    &&& a.max_retries == b.max_retries
    &&& a.retry_delay_seconds == b.retry_delay_seconds
}

impl Clone for StrategyParameters {
    fn clone(&self) -> (r: StrategyParameters)
        ensures
            spec_params_congruent(r, *self),
    {
        StrategyParameters {
            min_profit_threshold: self.min_profit_threshold,
            max_slippage: self.max_slippage,
            max_price_impact: self.max_price_impact,
            min_liquidity: self.min_liquidity,
            max_trade_amount: self.max_trade_amount,
            position_size_multiplier: self.position_size_multiplier,
            supported_dexes: self.supported_dexes.clone(),
            max_risk_score: self.max_risk_score,
            execution_delay_seconds: self.execution_delay_seconds,
            retry_delay_seconds: self.retry_delay_seconds,
            max_retries: self.max_retries,
        }
    }
}

impl Default for StrategyParameters {
    /// The stock parameter set: 0.5% profit floor, 1% slippage cap,
    /// 0.5% impact cap, 1000 units of liquidity, 10000-unit trades at
    /// full size, every exchange allowed, medium risk tolerated.
    fn default() -> (r: StrategyParameters)
        ensures
            r.min_profit_threshold == 5_000,
            r.max_slippage == 10_000,
            r.max_price_impact == 5_000,
            r.min_liquidity == 1_000,
            r.max_trade_amount == 10_000,
            r.position_size_multiplier == SCALE,
            r.supported_dexes@ == seq![
                DexType::Raydium,
                DexType::Meteora,
                DexType::Whirlpool,
                DexType::Pump,
            ],
            r.max_risk_score is Medium,
            r.execution_delay_seconds == 0,
            r.max_retries == 3,
            r.retry_delay_seconds == 5,
    {
        let mut dexes: Vec<DexType> = Vec::new();
        dexes.push(DexType::Raydium);
        dexes.push(DexType::Meteora);
        dexes.push(DexType::Whirlpool);
        dexes.push(DexType::Pump);
        proof {
            assert(dexes@ =~= seq![
                DexType::Raydium,
                DexType::Meteora,
                DexType::Whirlpool,
                DexType::Pump,
            ]);
        }
        StrategyParameters {
            min_profit_threshold: 5_000,
            max_slippage: 10_000,
            max_price_impact: 5_000,
            min_liquidity: 1_000,
            max_trade_amount: 10_000,
            position_size_multiplier: SCALE,
            supported_dexes: dexes,
            max_risk_score: RiskScore::Medium,
            execution_delay_seconds: 0,
            max_retries: 3,
            retry_delay_seconds: 5,
        }
    }
}

/// Why a strategy fails validation.
#[derive(Clone, Copy, PartialEq, Eq, Structural, Debug)]
pub enum StrategyError {
    EmptyName,
    NonPositiveProfitThreshold,
    NonPositiveSlippage,
    NonPositiveLiquidity,
    NonPositiveTradeAmount,
    NonPositiveMultiplier,
    NoSupportedDexes,
}

/// The first validation failure of a strategy, if any: an empty name, a
/// zero threshold, or an empty DEX set.
pub open spec fn spec_validate(s: BaseArbitrageStrategy) -> Option<StrategyError> {
    if s.name@.len() == 0 {
        Some(StrategyError::EmptyName)
    } else if s.parameters.min_profit_threshold == 0 {
        Some(StrategyError::NonPositiveProfitThreshold)
    } else if s.parameters.max_slippage == 0 {
        Some(StrategyError::NonPositiveSlippage)
    } else if s.parameters.min_liquidity == 0 {
        Some(StrategyError::NonPositiveLiquidity)
    } else if s.parameters.max_trade_amount == 0 {
        Some(StrategyError::NonPositiveTradeAmount)
    } else if s.parameters.position_size_multiplier == 0 {
        Some(StrategyError::NonPositiveMultiplier)
    } else if s.parameters.supported_dexes@.len() == 0 {
        Some(StrategyError::NoSupportedDexes)
    } else {
        None
    }
}

/// Whether a strategy executes an opportunity: the strategy is active,
/// the profit clears its floor, the risk stays within its ceiling, both
/// pools trade on supported exchanges, and all four reserves meet the
/// liquidity floor.
pub open spec fn spec_should_execute(s: BaseArbitrageStrategy, o: ArbitrageOpportunity) -> bool {
    &&& s.is_active
    &&& o.profit_percentage >= s.parameters.min_profit_threshold
    &&& spec_risk_rank(o.risk_score) <= spec_risk_rank(s.parameters.max_risk_score)
    &&& spec_contains_dex(s.parameters.supported_dexes@, o.buy_pool.dex_type)
    &&& spec_contains_dex(s.parameters.supported_dexes@, o.sell_pool.dex_type)
    &&& o.buy_pool.reserve_a >= s.parameters.min_liquidity
    &&& o.buy_pool.reserve_b >= s.parameters.min_liquidity
    &&& o.sell_pool.reserve_a >= s.parameters.min_liquidity
    &&& o.sell_pool.reserve_b >= s.parameters.min_liquidity
}

/// The smaller of two amounts.
pub open spec fn spec_min64(a: int, b: int) -> int {
    if a <= b {
        a
    } else {
        b
    }
}

/// The trade size a strategy picks: the smallest reserve on either side,
/// scaled by the position multiplier, capped at the maximum trade amount.
pub open spec fn spec_optimal_amount(s: BaseArbitrageStrategy, o: ArbitrageOpportunity) -> int {
    let max_buy = spec_min64(o.buy_pool.reserve_a as int, o.buy_pool.reserve_b as int);
    let max_sell = spec_min64(o.sell_pool.reserve_a as int, o.sell_pool.reserve_b as int);
    let max_amount = spec_min64(max_buy, max_sell);
    let sized = (max_amount * s.parameters.position_size_multiplier as int) / SCALE as int;
    spec_min64(sized, s.parameters.max_trade_amount as int)
}

/// The weight the score formula gives a risk level, in millionths.
pub open spec fn spec_risk_weight(r: RiskScore) -> int {
    match r {
        RiskScore::Low => 1_000_000,
        RiskScore::Medium => 700_000,
        RiskScore::High => 400_000,
        RiskScore::Critical => 0,
    }
}

/// Largest profit fraction an opportunity constructor can produce.
pub open spec fn spec_max_profit_fraction() -> int {
    crate::units::max_price() * SCALE as int
}

/// The ranking score of an opportunity under a strategy, in millionths:
/// `0.4 * (profit / threshold) + 0.3 * risk_weight + 0.3 * min(1,
/// min_buy_reserve / 10000)`.
pub open spec fn spec_score(s: BaseArbitrageStrategy, o: ArbitrageOpportunity) -> int {
    let ratio = (o.profit_percentage as int * SCALE as int) / s.parameters.min_profit_threshold
        as int;
    let liquidity = spec_min64(
        SCALE as int,
        spec_min64(o.buy_pool.reserve_a as int, o.buy_pool.reserve_b as int) * 100,
    );
    (4 * ratio + 3 * spec_risk_weight(o.risk_score) + 3 * liquidity) / 10
}

/// A named filter-and-sizing policy.
#[derive(Debug)]
pub struct BaseArbitrageStrategy {
    pub id: String,
    pub name: String,
    pub description: String,
    pub parameters: StrategyParameters,
    pub is_active: bool,
}

/// The same strategy, with its parameters compared by contents.
pub open spec fn spec_base_strategy_congruent(
    a: BaseArbitrageStrategy,
    b: BaseArbitrageStrategy,
) -> bool {
    &&& a.id == b.id
    &&& a.name == b.name
    &&& a.description == b.description
    &&& spec_params_congruent(a.parameters, b.parameters)
    &&& a.is_active == b.is_active
}

impl Clone for BaseArbitrageStrategy {
    fn clone(&self) -> (r: BaseArbitrageStrategy)
        ensures
            spec_base_strategy_congruent(r, *self),
    {
        BaseArbitrageStrategy {
            id: self.id.clone(),
            name: self.name.clone(),
            description: self.description.clone(),
            parameters: self.parameters.clone(),
            is_active: self.is_active,
        }
    }
}

impl BaseArbitrageStrategy {
    /// The strategy's name.
    pub fn name(&self) -> (r: &str)
        ensures
            r@ == self.name@,
    {
        self.name.as_str()
    }

    /// The strategy's description.
    pub fn description(&self) -> (r: &str)
        ensures
            r@ == self.description@,
    {
        self.description.as_str()
    }

    /// Whether this strategy executes the opportunity.
    pub fn should_execute(&self, opportunity: &ArbitrageOpportunity) -> (r: bool)
        ensures
            r == spec_should_execute(*self, *opportunity),
    {
        if !self.is_active {
            return false;
        }
        if opportunity.profit_percentage < self.parameters.min_profit_threshold {
            return false;
        }
        if !opportunity.risk_score.le(&self.parameters.max_risk_score) {
            return false;
        }
        if !contains_dex(&self.parameters.supported_dexes, opportunity.buy_pool.dex_type)
            || !contains_dex(&self.parameters.supported_dexes, opportunity.sell_pool.dex_type) {
            return false;
        }
        let min_liquidity = self.parameters.min_liquidity;
        if opportunity.buy_pool.reserve_a < min_liquidity || opportunity.buy_pool.reserve_b
            < min_liquidity || opportunity.sell_pool.reserve_a < min_liquidity
            || opportunity.sell_pool.reserve_b < min_liquidity {
            return false;
        }
        true
    }

    /// The trade size this strategy picks for the opportunity.
    pub fn calculate_optimal_amount(&self, opportunity: &ArbitrageOpportunity) -> (r: Option<u64>)
        ensures
            r is Some,
            r->0 as int == spec_optimal_amount(*self, *opportunity),
    {
        let max_buy: u64 = if opportunity.buy_pool.reserve_a <= opportunity.buy_pool.reserve_b {
            opportunity.buy_pool.reserve_a
        } else {
            opportunity.buy_pool.reserve_b
        };
        let max_sell: u64 = if opportunity.sell_pool.reserve_a
            <= opportunity.sell_pool.reserve_b {
            opportunity.sell_pool.reserve_a
        } else {
            opportunity.sell_pool.reserve_b
        };
        let max_amount: u64 = if max_buy <= max_sell {
            max_buy
        } else {
            max_sell
        };
        let mult: u128 = self.parameters.position_size_multiplier;
        let cap: u64 = self.parameters.max_trade_amount;
        if max_amount == 0 {
            return Some(0);
        }
        if mult <= u128::MAX / (max_amount as u128) {
            proof {
                let m = max_amount as int;
                let d = u128::MAX as int;
                assert(m * mult <= d) by (nonlinear_arith)
                    requires
                        1 <= m,
                        0 <= mult <= d / m,
                ;
            }
            let sized: u128 = (max_amount as u128 * mult) / SCALE;
            if sized <= cap as u128 {
                Some(sized as u64)
            } else {
                Some(cap)
            }
        } else {
            proof {
                let m = max_amount as int;
                let d = u128::MAX as int;
                assert(m * mult > d) by (nonlinear_arith)
                    requires
                        1 <= m,
                        mult > d / m,
                ;
                crate::units::lemma_mul_bounds(cap as int, SCALE as int, u64::MAX as int, SCALE as int);
                assert((u64::MAX as int) * (SCALE as int) < u128::MAX as int) by (nonlinear_arith);
                crate::units::lemma_div_lower(m * mult, SCALE as int, cap as int);
            }
            Some(cap)
        }
    }

    /// A copy of the parameters, with the DEX list compared by contents.
    pub fn get_parameters(&self) -> (r: StrategyParameters)
        ensures
            spec_params_congruent(r, self.parameters),
    {
        self.parameters.clone()
    }

    /// Validate the configuration; the first violated rule is reported.
    pub fn validate(&self) -> (r: Result<(), StrategyError>)
        ensures
            r is Ok <==> spec_validate(*self) is None,
            r is Err ==> Some(r->Err_0) == spec_validate(*self),
    {
        if self.name.as_str().unicode_len() == 0 {
            return Err(StrategyError::EmptyName);
        }
        if self.parameters.min_profit_threshold == 0 {
            return Err(StrategyError::NonPositiveProfitThreshold);
        }
        if self.parameters.max_slippage == 0 {
            return Err(StrategyError::NonPositiveSlippage);
        }
        if self.parameters.min_liquidity == 0 {
            return Err(StrategyError::NonPositiveLiquidity);
        }
        if self.parameters.max_trade_amount == 0 {
            return Err(StrategyError::NonPositiveTradeAmount);
        }
        if self.parameters.position_size_multiplier == 0 {
            return Err(StrategyError::NonPositiveMultiplier);
        }
        if self.parameters.supported_dexes.len() == 0 {
            return Err(StrategyError::NoSupportedDexes);
        }
        Ok(())
    }
}

/// Preset builders for common strategies.
pub struct StrategyFactory;

impl StrategyFactory {
    /// An active strategy from explicit parameters, accepted only when it
    /// validates.
    pub fn create_base_strategy(
        name: String,
        description: String,
        parameters: StrategyParameters,
    ) -> (r: Result<BaseArbitrageStrategy, StrategyError>)
        ensures
            r is Ok ==> ({
                let s = r->Ok_0;
                &&& s.id@.len() == 36
                &&& s.name == name
                &&& s.description == description
                &&& s.parameters == parameters
                &&& s.is_active
                &&& spec_validate(s) is None
            }),
            r is Err ==> spec_validate(
                BaseArbitrageStrategy {
                    id: r->Ok_0.id,
                    name,
                    description,
                    parameters,
                    is_active: true,
                },
            ) is Some,
    {
        let strategy = BaseArbitrageStrategy {
            id: crate::ids::new_uuid_string(),
            name,
            description,
            parameters,
            is_active: true,
        };
        match strategy.validate() {
            Ok(_) => Ok(strategy),
            Err(e) => Err(e),
        }
    }

    /// The conservative preset: 1% profit floor, low risk only, small
    /// trades at half size.
    pub fn create_conservative_strategy() -> (r: BaseArbitrageStrategy)
        ensures
            r.id@.len() == 36,
            r.name@ == "Conservative"@,
            r.parameters.min_profit_threshold == 10_000,
            r.parameters.max_risk_score is Low,
            r.parameters.max_trade_amount == 5_000,
            r.parameters.position_size_multiplier == 500_000,
            r.is_active,
    {
        let mut parameters = StrategyParameters::default();
        parameters.min_profit_threshold = 10_000;
        parameters.max_risk_score = RiskScore::Low;
        parameters.max_trade_amount = 5_000;
        parameters.position_size_multiplier = 500_000;
        BaseArbitrageStrategy {
            id: crate::ids::new_uuid_string(),
            name: String::from_str("Conservative"),
            description: String::from_str(
                "Conservative arbitrage strategy with low risk tolerance",
            ),
            parameters,
            is_active: true,
        }
    }

    /// The aggressive preset: 0.2% profit floor, high risk tolerated,
    /// large trades at double size.
    pub fn create_aggressive_strategy() -> (r: BaseArbitrageStrategy)
        ensures
            r.id@.len() == 36,
            r.name@ == "Aggressive"@,
            r.parameters.min_profit_threshold == 2_000,
            r.parameters.max_risk_score is High,
            r.parameters.max_trade_amount == 50_000,
            r.parameters.position_size_multiplier == 2_000_000,
            r.is_active,
    {
        let mut parameters = StrategyParameters::default();
        parameters.min_profit_threshold = 2_000;
        parameters.max_risk_score = RiskScore::High;
        parameters.max_trade_amount = 50_000;
        parameters.position_size_multiplier = 2_000_000;
        BaseArbitrageStrategy {
            id: crate::ids::new_uuid_string(),
            name: String::from_str("Aggressive"),
            description: String::from_str(
                "Aggressive arbitrage strategy with high risk tolerance",
            ),
            parameters,
            is_active: true,
        }
    }

    /// The triangular preset: 0.3% profit floor, medium risk, mid-size
    /// trades at one-and-a-half size.
    pub fn create_triangular_strategy() -> (r: BaseArbitrageStrategy)
        ensures
            r.id@.len() == 36,
            r.name@ == "Triangular"@,
            r.parameters.min_profit_threshold == 3_000,
            r.parameters.max_risk_score is Medium,
            r.parameters.max_trade_amount == 20_000,
            r.parameters.position_size_multiplier == 1_500_000,
            r.is_active,
    {
        let mut parameters = StrategyParameters::default();
        parameters.min_profit_threshold = 3_000;
        parameters.max_risk_score = RiskScore::Medium;
        parameters.max_trade_amount = 20_000;
        parameters.position_size_multiplier = 1_500_000;
        BaseArbitrageStrategy {
            id: crate::ids::new_uuid_string(),
            name: String::from_str("Triangular"),
            description: String::from_str(
                "Triangular arbitrage strategy for three-token cycles",
            ),
            parameters,
            is_active: true,
        }
    }
}

/// One strategy's verdict on an opportunity.
#[derive(Debug)]
pub struct StrategyEvaluation {
    pub strategy_name: String,
    pub should_execute: bool,
    pub optimal_amount: Option<u64>,
    pub parameters: StrategyParameters,
    /// Millionths.
    pub score: u128,
}

/// Whether an evaluation is the verdict of strategy `s` on opportunity
/// `o`.
pub open spec fn spec_eval_matches(
    e: StrategyEvaluation,
    s: BaseArbitrageStrategy,
    o: ArbitrageOpportunity,
) -> bool {
    &&& e.strategy_name == s.name
    &&& e.should_execute == spec_should_execute(s, o)
    &&& e.optimal_amount is Some && e.optimal_amount->0 as int == spec_optimal_amount(s, o)
    &&& spec_params_congruent(e.parameters, s.parameters)
    &&& e.score as int == spec_score(s, o)
}

/// Position `i` of `evals` is some strategy's verdict on `o`.
pub open spec fn spec_eval_from_some_strategy(
    evals: Seq<StrategyEvaluation>,
    strats: Seq<BaseArbitrageStrategy>,
    o: ArbitrageOpportunity,
    i: int,
) -> bool {
    exists|k: int|
        0 <= k < strats.len() && spec_eval_matches(evals[i], #[trigger] strats[k], o)
}

/// Strategy `k` has its verdict somewhere in `evals`.
pub open spec fn spec_strategy_evaluated_somewhere(
    evals: Seq<StrategyEvaluation>,
    strats: Seq<BaseArbitrageStrategy>,
    o: ArbitrageOpportunity,
    k: int,
) -> bool {
    exists|i: int|
        0 <= i < evals.len() && spec_eval_matches(#[trigger] evals[i], strats[k], o)
}

/// Holds the registered strategies, keyed by name.
pub struct StrategyManager {
    strategies: Vec<BaseArbitrageStrategy>,
}

impl StrategyManager {
    /// The registered strategies.
    pub closed spec fn strats(self) -> Seq<BaseArbitrageStrategy> {
        self.strategies@
    }

    /// Strategy names are pairwise distinct.
    pub open spec fn wf(self) -> bool {
        forall|i: int, j: int|
            0 <= i < j < self.strats().len() ==> self.strats()[i].name@ != self.strats()[j].name@
    }

    /// An empty manager.
    pub fn new() -> (r: StrategyManager)
        ensures
            r.wf(),
            r.strats().len() == 0,
    {
        StrategyManager { strategies: Vec::new() }
    }

    /// The index of the strategy with this name, if present.
    fn find_by_name(&self, name: &String) -> (r: Option<usize>)
        ensures
            r is Some <==> exists|i: int|
                0 <= i < self.strats().len() && self.strats()[i].name@ == name@,
            r is Some ==> 0 <= r->0 < self.strats().len() && self.strats()[r->0 as int].name@
                == name@,
    {
        let mut i: usize = 0;
        while i < self.strategies.len()
            invariant
                0 <= i <= self.strats().len(),
                forall|j: int| 0 <= j < i ==> self.strats()[j].name@ != name@,
            decreases self.strats().len() - i,
        {
            if self.strategies[i].name == *name {
                return Some(i);
            }
            i = i + 1;
        }
        None
    }

    /// Register a strategy under its name, replacing any namesake.
    pub fn add_strategy(&mut self, strategy: BaseArbitrageStrategy)
        requires
            old(self).wf(),
        ensures
            final(self).wf(),
            (exists|i: int|
                0 <= i < old(self).strats().len() && old(self).strats()[i].name@
                    == strategy.name@) ==> final(self).strats() == old(self).strats().update(
                choose|i: int|
                    0 <= i < old(self).strats().len() && old(self).strats()[i].name@
                        == strategy.name@,
                strategy,
            ),
            !(exists|i: int|
                0 <= i < old(self).strats().len() && old(self).strats()[i].name@
                    == strategy.name@) ==> final(self).strats() == old(self).strats().push(
                strategy,
            ),
    {
        match self.find_by_name(&strategy.name) {
            Some(i) => {
                proof {
                    let s = self.strategies@;
                    let k = choose|k: int| 0 <= k < s.len() && s[k].name@ == strategy.name@;
                    if k != i {
                        assert(s[i as int].name@ == s[k].name@);
                        assert(false);
                    }
                }
                self.strategies.set(i, strategy);
            },
            None => {
                self.strategies.push(strategy);
            },
        }
    }

    /// Remove and return the strategy with this name, if present.
    pub fn remove_strategy(&mut self, name: &String) -> (r: Option<BaseArbitrageStrategy>)
        requires
            old(self).wf(),
        ensures
            final(self).wf(),
            r is Some <==> exists|i: int|
                0 <= i < old(self).strats().len() && old(self).strats()[i].name@ == name@,
            r is Some ==> ({
                let k = choose|i: int|
                    0 <= i < old(self).strats().len() && old(self).strats()[i].name@ == name@;
                r->0 == old(self).strats()[k] && final(self).strats() == old(
                    self,
                ).strats().remove(k)
            }),
            r is None ==> final(self).strats() == old(self).strats(),
    {
        match self.find_by_name(name) {
            Some(i) => {
                proof {
                    let s = self.strategies@;
                    let k = choose|k: int| 0 <= k < s.len() && s[k].name@ == name@;
                    if k != i {
                        assert(s[i as int].name@ == s[k].name@);
                        assert(false);
                    }
                }
                let removed = self.strategies.remove(i);
                Some(removed)
            },
            None => None,
        }
    }

    /// The strategy with this name, if present.
    pub fn get_strategy(&self, name: &String) -> (r: Option<&BaseArbitrageStrategy>)
        ensures
            r is Some <==> exists|i: int|
                0 <= i < self.strats().len() && self.strats()[i].name@ == name@,
            r is Some ==> (*r->0).name@ == name@ && self.strats().contains(*r->0),
    {
        match self.find_by_name(name) {
            Some(i) => {
                let found = &self.strategies[i];
                proof {
                    assert(self.strats()[i as int] == *found);
                }
                Some(found)
            },
            None => None,
        }
    }

    /// All registered strategies, in registration order.
    pub fn get_all_strategies(&self) -> (r: &Vec<BaseArbitrageStrategy>)
        ensures
            r@ == self.strats(),
    {
        &self.strategies
    }

    /// Every strategy's verdict on the opportunity, ranked best-first by
    /// score.
    #[verifier::rlimit(100)]
    pub fn evaluate_opportunity(&self, opportunity: &ArbitrageOpportunity) -> (r: Vec<
        StrategyEvaluation,
    >)
        requires
            forall|i: int|
                0 <= i < self.strats().len()
                    ==> #[trigger] self.strats()[i].parameters.min_profit_threshold > 0,
            opportunity.profit_percentage as int <= spec_max_profit_fraction(),
        ensures
            r@.len() == self.strats().len(),
            forall|i: int, j: int|
                #![trigger r@[i], r@[j]]
                0 <= i < j < r@.len() ==> r@[i].score >= r@[j].score,
            forall|i: int|
                0 <= i < r@.len() ==> #[trigger] spec_eval_from_some_strategy(
                    r@,
                    self.strats(),
                    *opportunity,
                    i,
                ),
            forall|k: int|
                0 <= k < self.strats().len() ==> #[trigger] spec_strategy_evaluated_somewhere(
                    r@,
                    self.strats(),
                    *opportunity,
                    k,
                ),
    {
        let mut result: Vec<StrategyEvaluation> = Vec::new();
        let mut i: usize = 0;
        while i < self.strategies.len()
            invariant
                0 <= i <= self.strats().len(),
                forall|k: int|
                    0 <= k < self.strats().len()
                        ==> #[trigger] self.strats()[k].parameters.min_profit_threshold > 0,
                opportunity.profit_percentage as int <= spec_max_profit_fraction(),
                result@.len() == i,
                forall|a: int, b: int|
                    #![trigger result@[a], result@[b]]
                    0 <= a < b < result@.len() ==> result@[a].score >= result@[b].score,
                forall|a: int|
                    0 <= a < result@.len() ==> #[trigger] spec_eval_from_some_strategy(
                        result@,
                        self.strats(),
                        *opportunity,
                        a,
                    ),
                forall|k: int|
                    0 <= k < i ==> #[trigger] spec_strategy_evaluated_somewhere(
                        result@,
                        self.strats(),
                        *opportunity,
                        k,
                    ),
            decreases self.strats().len() - i,
        {
            let strategy = &self.strategies[i];
            let evaluation = StrategyEvaluation {
                strategy_name: strategy.name.clone(),
                should_execute: strategy.should_execute(opportunity),
                optimal_amount: strategy.calculate_optimal_amount(opportunity),
                parameters: strategy.get_parameters(),
                score: Self::calculate_strategy_score(opportunity, strategy),
            };
            proof {
                assert(spec_eval_matches(evaluation, self.strats()[i as int], *opportunity));
            }
            let mut pos: usize = 0;
            while pos < result.len() && result[pos].score >= evaluation.score
                invariant
                    0 <= pos <= result@.len(),
                    forall|a: int| 0 <= a < pos ==> #[trigger] result@[a].score
                        >= evaluation.score,
                decreases result@.len() - pos,
            {
                pos = pos + 1;
            }
            let ghost before = result@;
            result.insert(pos, evaluation);
            proof {
                let cur = result@;
                let strats = self.strats();
                assert(cur.len() == before.len() + 1);
                assert(forall|a: int| 0 <= a < pos ==> cur[a] == before[a]);
                assert(cur[pos as int] == evaluation);
                assert(forall|a: int| pos < a < cur.len() ==> cur[a] == before[a - 1]);
                assert forall|a: int, b: int| 0 <= a < b < cur.len() implies cur[a].score
                    >= cur[b].score by {
                    if b < pos {
                    } else if a == pos as int || b == pos as int {
                        if (pos as int) < before.len() && (pos as int) < b {
                            assert(before[pos as int].score < evaluation.score);
                        }
                    } else {
                    }
                }
                assert forall|a: int| 0 <= a < cur.len() implies #[trigger]
                    spec_eval_from_some_strategy(cur, strats, *opportunity, a) by {
                    if a < pos {
                        assert(spec_eval_from_some_strategy(before, strats, *opportunity, a));
                        let k0 = choose|k: int|
                            0 <= k < strats.len() && spec_eval_matches(
                                before[a],
                                #[trigger] strats[k],
                                *opportunity,
                            );
                        assert(spec_eval_matches(cur[a], strats[k0], *opportunity));
                    } else if a == pos as int {
                        assert(spec_eval_matches(cur[a], strats[i as int], *opportunity));
                    } else {
                        assert(spec_eval_from_some_strategy(before, strats, *opportunity, a - 1));
                        let k0 = choose|k: int|
                            0 <= k < strats.len() && spec_eval_matches(
                                before[a - 1],
                                #[trigger] strats[k],
                                *opportunity,
                            );
                        assert(spec_eval_matches(cur[a], strats[k0], *opportunity));
                    }
                }
                assert forall|k: int| 0 <= k < i + 1 implies #[trigger]
                    spec_strategy_evaluated_somewhere(cur, strats, *opportunity, k) by {
                    if k == i as int {
                        assert(spec_eval_matches(cur[pos as int], strats[k], *opportunity));
                    } else {
                        assert(spec_strategy_evaluated_somewhere(before, strats, *opportunity, k));
                        let a0 = choose|a: int|
                            0 <= a < before.len() && spec_eval_matches(
                                #[trigger] before[a],
                                strats[k],
                                *opportunity,
                            );
                        if a0 < pos {
                            assert(spec_eval_matches(cur[a0], strats[k], *opportunity));
                        } else {
                            assert(spec_eval_matches(cur[a0 + 1], strats[k], *opportunity));
                        }
                    }
                }
            }
            i = i + 1;
        }
        result
    }

    /// The ranking score of the opportunity under one strategy.
    pub fn calculate_strategy_score(
        opportunity: &ArbitrageOpportunity,
        strategy: &BaseArbitrageStrategy,
    ) -> (r: u128)
        requires
            strategy.parameters.min_profit_threshold > 0,
            opportunity.profit_percentage as int <= spec_max_profit_fraction(),
        ensures
            r as int == spec_score(*strategy, *opportunity),
    {
        proof {
            crate::units::lemma_mul_bounds(
                opportunity.profit_percentage as int,
                SCALE as int,
                spec_max_profit_fraction(),
                SCALE as int,
            );
            assert(opportunity.profit_percentage as int * SCALE as int <= (
            opportunity.profit_percentage as int * SCALE as int)
                * strategy.parameters.min_profit_threshold as int) by (nonlinear_arith)
                requires
                    strategy.parameters.min_profit_threshold >= 1,
                    opportunity.profit_percentage >= 0,
            ;
            crate::units::lemma_div_bound(
                opportunity.profit_percentage as int * SCALE as int,
                strategy.parameters.min_profit_threshold as int,
                opportunity.profit_percentage as int * SCALE as int,
            );
        }
        let ratio: u128 = (opportunity.profit_percentage * SCALE)
            / strategy.parameters.min_profit_threshold;
        let risk_weight: u128 = match opportunity.risk_score {
            RiskScore::Low => 1_000_000,
            RiskScore::Medium => 700_000,
            RiskScore::High => 400_000,
            RiskScore::Critical => 0,
        };
        let min_reserve: u64 = if opportunity.buy_pool.reserve_a
            <= opportunity.buy_pool.reserve_b {
            opportunity.buy_pool.reserve_a
        } else {
            opportunity.buy_pool.reserve_b
        };
        let scaled_reserve: u128 = min_reserve as u128 * 100;
        let liquidity: u128 = if SCALE <= scaled_reserve {
            SCALE
        } else {
            scaled_reserve
        };
        proof {
            assert(ratio as int <= spec_max_profit_fraction() * SCALE as int);
            assert(spec_max_profit_fraction() * SCALE as int * 4 + 3 * 1_000_000 + 3 * 1_000_000
                < u128::MAX as int) by (nonlinear_arith);
            assert(4 * (ratio as int) <= 4 * (spec_max_profit_fraction() * SCALE as int))
                by (nonlinear_arith)
                requires
                    ratio as int <= spec_max_profit_fraction() * SCALE as int,
            ;
        }
        (4 * ratio + 3 * risk_weight + 3 * liquidity) / 10
    }
}

} // verus!
