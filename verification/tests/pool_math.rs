//! Checks of the pool arithmetic, routes, adapter helpers and the
//! strategy sizing and scoring formulas.

use offchain_bot::arbitrage::{ArbitrageOpportunity, ArbitrageRoute, RiskScore};
use offchain_bot::dex::{DexError, DexHelpers};
use offchain_bot::executor::ExecutionStats;
use offchain_bot::pool::Pool;
use offchain_bot::store::MemoryStore;
use offchain_bot::strategy::{StrategyFactory, StrategyManager, StrategyParameters};
use offchain_bot::token::Token;

fn token(mint: u64, symbol: &str) -> Token {
    Token::new(mint, symbol.to_string(), format!("{} token", symbol), 9)
}

fn pool(id: &str, mint_a: u64, mint_b: u64, reserve_a: u64, reserve_b: u64, fee: u64) -> Pool {
    let now = 1_700_000_000_000i64;
    Pool::new(
        id.to_string(),
        offchain_bot::dex::DexType::Raydium,
        token(mint_a, "BASE"),
        token(mint_b, "QUOTE"),
        1,
        2,
        3,
        now,
    )
    .update_reserves(reserve_a, reserve_b, now)
    .with_fee_rate(fee)
}

#[test]
fn test_swap_output_constant_product() {
    // No fee: out = in * out_reserve / (in_reserve + in);
    // 1000 * 10000 / 11000 = 909.
    let p = pool("p", 1, 2, 10_000, 10_000, 0);
    let base = token(1, "BASE");
    assert_eq!(p.calculate_output_amount(1_000, &base), Some(909));
    // A 100% fee forwards nothing.
    let all_fee = pool("q", 1, 2, 10_000, 10_000, 1_000_000);
    assert_eq!(all_fee.calculate_output_amount(1_000, &base), Some(0));
    // Empty reserves give no quote at all.
    let dry = pool("r", 1, 2, 0, 10_000, 0);
    assert_eq!(dry.calculate_output_amount(1_000, &base), None);
    // A foreign token gives no quote.
    assert_eq!(p.calculate_output_amount(1_000, &token(9, "X")), None);
}

#[test]
fn test_price_impact() {
    // Paying 1000 into a 10000-reserve side moves the price; the input
    // share alone is 1000/11000 of the pool.
    let p = pool("p", 1, 2, 10_000, 10_000, 0);
    let base = token(1, "BASE");
    let impact = p.calculate_price_impact(1_000, &base).unwrap();
    assert!(impact > 0);
    let helper_impact =
        DexHelpers::calculate_price_impact(1_000, 10_000, 10_000, 0).unwrap();
    // input / (input_reserve + input) = 1000/11000 ≈ 9.09%.
    assert_eq!(helper_impact, 90_909);
    let refused = DexHelpers::calculate_price_impact(1_000, 0, 10_000, 0);
    assert!(matches!(refused, Err(DexError::InsufficientLiquidity(_))));
}

#[test]
fn test_optimal_route_picks_deepest_pool() {
    let shallow = pool("shallow", 1, 2, 1_000, 1_000, 0);
    let deep = pool("deep", 1, 2, 50_000, 50_000, 0);
    let unrelated = pool("other", 3, 4, 90_000, 90_000, 0);
    let route = DexHelpers::find_optimal_route(
        &vec![shallow, deep, unrelated],
        &token(1, "A"),
        &token(2, "B"),
        500,
    )
    .unwrap();
    assert_eq!(route.len(), 1);
    assert_eq!(route[0].id, "deep");
    let missing = DexHelpers::find_optimal_route(
        &vec![pool("p", 5, 6, 10, 10, 0)],
        &token(1, "A"),
        &token(2, "B"),
        500,
    );
    assert!(matches!(missing, Err(DexError::PoolNotFound(_))));
}

#[test]
fn test_slippage_validation() {
    // 2% below the expected output, against a 5% tolerance.
    assert!(DexHelpers::validate_slippage(1_000, 980, 50_000));
    // 10% below, against the same tolerance.
    assert!(!DexHelpers::validate_slippage(1_000, 900, 50_000));
    // Nothing expected is always refused.
    assert!(!DexHelpers::validate_slippage(0, 0, 50_000));
}

#[test]
fn test_route_output_and_fees() {
    let hop1 = pool("h1", 1, 2, 10_000, 10_000, 0);
    let hop2 = pool("h2", 2, 3, 10_000, 10_000, 0);
    let mut route = ArbitrageRoute::new(vec![hop1, hop2], token(1, "A"), token(3, "C"), 1_000);
    // 1000 -> 909 through the first hop, 909 -> 833 through the second.
    assert_eq!(route.calculate_expected_output(), Some(833));
    assert_eq!(route.expected_output, 833);
    route.fees = vec![5, 7, 8];
    assert_eq!(route.calculate_total_fees(), 20);
    assert_eq!(route.total_fees, 20);
    let mut empty = ArbitrageRoute::new(Vec::new(), token(1, "A"), token(3, "C"), 1_000);
    assert_eq!(empty.calculate_expected_output(), None);
}

#[test]
fn test_optimal_amount_scaling_and_cap() {
    let mut params = StrategyParameters::default();
    params.position_size_multiplier = 500_000;
    params.max_trade_amount = 100_000;
    let strategy = StrategyFactory::create_base_strategy(
        "sizer".to_string(),
        "half size".to_string(),
        params,
    )
    .unwrap();
    let now = 1_700_000_000_000i64;
    let buy = pool("b", 1, 2, 40_000, 60_000, 0);
    let sell = pool("s", 1, 2, 80_000, 70_000, 0);
    let opp = ArbitrageOpportunity::new(token(1, "A"), token(2, "B"), buy, sell, now);
    // Smallest reserve is 40000; half of it is 20000, under the cap.
    assert_eq!(strategy.calculate_optimal_amount(&opp), Some(20_000));
    let mut capped = strategy.clone();
    capped.parameters.max_trade_amount = 5_000;
    assert_eq!(capped.calculate_optimal_amount(&opp), Some(5_000));
}

#[test]
fn test_strategy_score_formula() {
    let now = 1_700_000_000_000i64;
    // Profit 1% against a 0.5% floor gives ratio 2; low risk weighs 1;
    // reserves of a million saturate the liquidity term. The score is
    // 0.4 * 2 + 0.3 * 1 + 0.3 * 1 = 1.4, in millionths.
    let strategy = StrategyFactory::create_base_strategy(
        "scored".to_string(),
        "stock thresholds".to_string(),
        StrategyParameters::default(),
    )
    .unwrap();
    let buy = pool("b", 1, 2, 1_000_000, 1_000_000, 0);
    let sell = pool("s", 1, 2, 1_010_000, 1_000_000, 0);
    let opp = ArbitrageOpportunity::new(token(1, "A"), token(2, "B"), buy, sell, now);
    assert_eq!(opp.profit_percentage, 10_000);
    assert_eq!(opp.risk_score, RiskScore::Low);
    let score = StrategyManager::calculate_strategy_score(&opp, &strategy);
    assert_eq!(score, 1_400_000);
}

#[test]
fn test_strategy_manager_ranks_by_score() {
    let now = 1_700_000_000_000i64;
    let mut manager = StrategyManager::new();
    // A lower profit floor yields a higher profit ratio, so a higher
    // score.
    let mut lenient = StrategyParameters::default();
    lenient.min_profit_threshold = 2_500;
    manager.add_strategy(
        StrategyFactory::create_base_strategy(
            "lenient".to_string(),
            "low floor".to_string(),
            lenient,
        )
        .unwrap(),
    );
    manager.add_strategy(
        StrategyFactory::create_base_strategy(
            "stock".to_string(),
            "stock floor".to_string(),
            StrategyParameters::default(),
        )
        .unwrap(),
    );
    let buy = pool("b", 1, 2, 1_000_000, 1_000_000, 0);
    let sell = pool("s", 1, 2, 1_010_000, 1_000_000, 0);
    let opp = ArbitrageOpportunity::new(token(1, "A"), token(2, "B"), buy, sell, now);
    let ranked = manager.evaluate_opportunity(&opp);
    assert_eq!(ranked.len(), 2);
    assert_eq!(ranked[0].strategy_name, "lenient");
    assert!(ranked[0].score >= ranked[1].score);
    assert!(ranked[0].should_execute);
}

#[test]
fn test_execution_stats_success_rate() {
    let mut stats = ExecutionStats::default();
    assert_eq!(stats.success_rate(), 0);
    stats.total_executions = 4;
    stats.successful_executions = 3;
    assert_eq!(stats.success_rate(), 750_000);
}

#[test]
fn test_store_strategies_and_status_updates() {
    let now = 1_700_000_000_000i64;
    let mut store = MemoryStore::new(4, 4, now);
    let strategy = offchain_bot::arbitrage::ArbitrageStrategy::new(
        "kept".to_string(),
        "stored".to_string(),
        5_000,
        10_000,
        5_000,
        1_000,
        vec![offchain_bot::dex::DexType::Raydium],
        RiskScore::Medium,
        now,
    );
    let id = strategy.id.clone();
    store.save_strategy(strategy);
    assert_eq!(store.get_strategies().len(), 1);
    store.delete_strategy(&id);
    assert_eq!(store.get_strategies().len(), 0);

    let buy = pool("b", 1, 2, 1_000_000, 1_000_000, 0);
    let sell = pool("s", 1, 2, 1_010_000, 1_000_000, 0);
    let opp = ArbitrageOpportunity::new(token(1, "A"), token(2, "B"), buy, sell, now);
    let opp_id = opp.id.clone();
    store.save_opportunity(&opp);
    store.update_opportunity_status(
        &opp_id,
        offchain_bot::arbitrage::OpportunityStatus::Completed,
    );
    let read_back = store.get_opportunity(&opp_id).unwrap();
    assert_eq!(read_back.status, offchain_bot::arbitrage::OpportunityStatus::Completed);
    assert_eq!(store.get_active_opportunities().len(), 0);
}
