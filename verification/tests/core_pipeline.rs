//! End-to-end checks of the opportunity pipeline: pool pricing, the
//! scanner, the store's capacity and eviction, the engine's dedup and
//! metrics, and the executor's concurrency ceiling and state machine.

use offchain_bot::arbitrage::{
    ArbitrageExecution, ArbitrageOpportunity, ArbitrageStrategy, ExecutionStatus,
    OpportunityStatus, RiskScore,
};
use offchain_bot::config::{
    AppConfig, ArbitrageConfig, DatabaseConfig, DexConfig, DexEndpointConfig, LoggingConfig,
    MemoryStoreConfig, SolanaConfig,
};
use offchain_bot::dex::DexType;
use offchain_bot::engine::ArbitrageEngine;
use offchain_bot::executor::{ArbitrageExecutor, ChainUpdate, check_execution_status};
use offchain_bot::pool::Pool;
use offchain_bot::scanner::OpportunityScanner;
use offchain_bot::store::MemoryStore;
use offchain_bot::token::Token;
use offchain_bot::transaction::{TransactionPool, TransactionRequest, TransactionResponse};

fn token(mint: u64, symbol: &str) -> Token {
    Token::new(mint, symbol.to_string(), format!("{} token", symbol), 9)
}

fn pool(
    id: &str,
    dex_type: DexType,
    mint_a: u64,
    mint_b: u64,
    reserve_a: u64,
    reserve_b: u64,
    fee_rate: u64,
    now: i64,
) -> Pool {
    Pool::new(
        id.to_string(),
        dex_type,
        token(mint_a, "BASE"),
        token(mint_b, "QUOTE"),
        7,
        8,
        9,
        now,
    )
    .update_reserves(reserve_a, reserve_b, now)
    .with_fee_rate(fee_rate)
}

fn test_opportunity(id: &str, timestamp: i64) -> ArbitrageOpportunity {
    let now = timestamp;
    let buy = pool("pool1", DexType::Raydium, 1, 2, 1_000_000, 1_000_000, 2_500, now);
    let sell = pool("pool2", DexType::Meteora, 1, 2, 1_010_000, 1_000_000, 2_500, now);
    let mut opp = ArbitrageOpportunity::new(token(1, "SOL"), token(2, "USDC"), buy, sell, now);
    opp.id = id.to_string();
    opp
}

fn test_config(min_profit_threshold: i64) -> AppConfig {
    AppConfig {
        database: DatabaseConfig {
            url: "postgres://localhost/arb".to_string(),
            max_connections: 4,
            timeout_seconds: 5,
        },
        memory_store: MemoryStoreConfig {
            enabled: true,
            max_opportunities: 16,
            max_executions: 16,
            cleanup_interval_seconds: 300,
            data_retention_days: 7,
        },
        solana: SolanaConfig {
            rpc_url: "https://api.mainnet-beta.solana.com".to_string(),
            ws_url: "wss://api.mainnet-beta.solana.com".to_string(),
            commitment: "confirmed".to_string(),
            jito_url: "https://jito-api.mainnet.solana.com".to_string(),
            jito_auth_header: String::new(),
        },
        dex: DexConfig {
            raydium: endpoint("https://api.raydium.io"),
            meteora: endpoint("https://api.meteora.ag"),
            whirlpool: endpoint("https://api.orca.so"),
            pump: endpoint("https://api.pump.fun"),
        },
        arbitrage: ArbitrageConfig {
            min_profit_threshold,
            max_slippage: 10_000,
            gas_price_multiplier: 1_100_000,
            max_concurrent_opportunities: 4,
            execution_timeout_seconds: 30,
        },
        logging: LoggingConfig {
            level: "info".to_string(),
            file_path: "arb.log".to_string(),
            max_file_size: 1_000_000,
            max_files: 3,
        },
        environment: "test".to_string(),
    }
}

fn endpoint(url: &str) -> DexEndpointConfig {
    DexEndpointConfig {
        base_url: url.to_string(),
        api_key: String::new(),
        timeout_seconds: 5,
        rate_limit: 10,
    }
}

fn permissive_strategy(now: i64) -> ArbitrageStrategy {
    ArbitrageStrategy::new(
        "allow-all".to_string(),
        "accepts every opportunity".to_string(),
        0,
        10_000,
        5_000,
        0,
        vec![DexType::Raydium, DexType::Meteora, DexType::Whirlpool, DexType::Pump],
        RiskScore::Critical,
        now,
    )
}

#[test]
fn test_opportunity_expiry_is_thirty_seconds() {
    let now = 1_700_000_000_000i64;
    let opp = test_opportunity("p1", now);
    assert_eq!(opp.expiry, opp.timestamp + 30_000);
    assert!(!opp.is_expired(now));
    assert!(!opp.is_expired(now + 30_000));
    assert!(opp.is_expired(now + 30_001));
}

#[test]
fn test_pool_price_undefined_on_zero_reserve() {
    let now = 1_700_000_000_000i64;
    let base = token(1, "SOL");
    let p = pool("p", DexType::Raydium, 1, 2, 5_000, 0, 0, now);
    assert!(p.get_price(&base).is_none());
    let q = pool("q", DexType::Raydium, 1, 2, 5_000, 2_000, 0, now);
    assert_eq!(q.get_price(&base), Some(2_500_000));
    let unrelated = token(99, "OTHER");
    assert!(q.get_price(&unrelated).is_none());
}

#[test]
fn test_scenario_price_gap_detection() {
    let now = 1_700_000_000_000i64;
    let pool1 = pool("pool1", DexType::Raydium, 1, 2, 1_000_000, 1_000_000, 0, now);
    let pool2 = pool("pool2", DexType::Meteora, 1, 2, 1_010_000, 1_000_000, 0, now);
    let scanner = OpportunityScanner::new(&test_config(5_000));
    let found = scanner.find_arbitrage_opportunities(&vec![pool1, pool2], now);
    assert_eq!(found.len(), 1);
    let opp = &found[0];
    // The gap is 1% of the cheaper price: 10_000 millionths.
    assert_eq!(opp.profit_percentage, 10_000);
    assert_eq!(opp.buy_pool.id, "pool1");
    assert_eq!(opp.sell_pool.id, "pool2");
    assert_eq!(opp.status, OpportunityStatus::Pending);
}

#[test]
fn test_scanner_skips_single_pool_pairs_and_zero_reserves() {
    let now = 1_700_000_000_000i64;
    let lonely = pool("only", DexType::Raydium, 1, 2, 1_000_000, 1_000_000, 0, now);
    let scanner = OpportunityScanner::new(&test_config(5_000));
    assert_eq!(scanner.find_arbitrage_opportunities(&vec![lonely], now).len(), 0);
    let drained = pool("drained", DexType::Raydium, 1, 2, 1_000_000, 0, 0, now);
    let healthy = pool("healthy", DexType::Meteora, 1, 2, 1_010_000, 1_000_000, 0, now);
    assert_eq!(
        scanner.find_arbitrage_opportunities(&vec![drained, healthy], now).len(),
        0
    );
}

#[test]
fn test_scenario_unsupported_dex_rejected() {
    let now = 1_700_000_000_000i64;
    let mut strategy = permissive_strategy(now);
    strategy.supported_dexes = vec![DexType::Raydium];
    let opp = test_opportunity("p1", now);
    assert_eq!(opp.sell_pool.dex_type, DexType::Meteora);
    assert!(!strategy.is_opportunity_suitable(&opp));
    strategy.supported_dexes = vec![DexType::Raydium, DexType::Meteora];
    assert!(strategy.is_opportunity_suitable(&opp));
}

#[test]
fn test_suitability_requires_liquidity_floor() {
    let now = 1_700_000_000_000i64;
    let mut strategy = permissive_strategy(now);
    let opp = test_opportunity("thin", now);
    // Every reserve in the test pools holds at most 1,010,000 units.
    strategy.min_liquidity = 2_000_000;
    assert!(!strategy.is_opportunity_suitable(&opp));
    strategy.min_liquidity = 1_000_000;
    assert!(strategy.is_opportunity_suitable(&opp));
}

#[test]
fn test_memory_store_basic_operations() {
    let now = 1_700_000_000_000i64;
    let mut store = MemoryStore::new(100, 1000, now);
    let opportunity = test_opportunity("test_opp", now);
    store.save_opportunity(&opportunity);
    let retrieved = store.get_opportunity(&"test_opp".to_string());
    assert!(retrieved.is_some());
    assert_eq!(retrieved.unwrap().id, opportunity.id);
}

#[test]
fn test_memory_store_capacity_limits() {
    let now = 1_700_000_000_000i64;
    let mut store = MemoryStore::new(2, 3, now);
    for i in 0..3 {
        let mut opp = test_opportunity("x", now + i);
        opp.id = format!("opp_{}", i);
        store.save_opportunity(&opp);
    }
    let opportunities = store.get_active_opportunities();
    assert_eq!(opportunities.len(), 2);
}

#[test]
fn test_scenario_store_evicts_oldest() {
    let now = 1_700_000_000_000i64;
    let mut store = MemoryStore::new(2, 3, now);
    let t1 = now + 1;
    let t2 = now + 2;
    let t3 = now + 3;
    let mut o1 = test_opportunity("first", t1);
    o1.timestamp = t1;
    let mut o2 = test_opportunity("second", t2);
    o2.timestamp = t2;
    let mut o3 = test_opportunity("third", t3);
    o3.timestamp = t3;
    store.save_opportunity(&o1);
    store.save_opportunity(&o2);
    store.save_opportunity(&o3);
    assert!(store.get_opportunity(&"first".to_string()).is_none());
    assert!(store.get_opportunity(&"second".to_string()).is_some());
    assert!(store.get_opportunity(&"third".to_string()).is_some());
    assert_eq!(store.get_storage_usage().opportunities_count, 2);
}

#[test]
fn test_scenario_confirmed_execution_contributes_net_profit() {
    let now = 1_700_000_000_000i64;
    let mut engine = ArbitrageEngine::new(test_config(1), now);
    let opp = test_opportunity("profitable", now);
    let mut execution = ArbitrageExecution::new(opp, now);
    execution.execution_status = ExecutionStatus::Confirmed;
    execution.actual_profit = Some(100);
    execution.total_cost = Some(10);
    engine.process_execution(execution);
    let metrics = engine.get_metrics(now);
    assert_eq!(metrics.total_profit, 100);
    assert_eq!(metrics.total_fees, 10);
    assert_eq!(metrics.net_profit, 90);
    assert_eq!(metrics.successful_executions, 1);
    assert_eq!(metrics.success_rate, 1_000_000);
    // The store's own running counters see the same outcome.
    let counters = engine.get_storage_usage();
    assert_eq!(counters.executions_count, 1);
}

#[test]
fn test_engine_dedup_forwards_one_execution() {
    let now = 1_700_000_000_000i64;
    // Net profit of a fresh opportunity is zero, so a negative floor
    // admits it.
    let mut engine = ArbitrageEngine::new(test_config(-1), now);
    engine.add_strategy(permissive_strategy(now));
    let opp = test_opportunity("dup", now);
    let first = engine.process_opportunity(opp.clone(), now);
    assert!(first.is_some());
    let second = engine.process_opportunity(opp.clone(), now);
    assert!(second.is_none());
    assert_eq!(engine.get_active_opportunities().len(), 1);
}

#[test]
fn test_engine_discards_expired_and_unprofitable() {
    let now = 1_700_000_000_000i64;
    let mut engine = ArbitrageEngine::new(test_config(-1), now);
    engine.add_strategy(permissive_strategy(now));
    let stale = test_opportunity("stale", now - 60_000);
    assert!(engine.process_opportunity(stale, now).is_none());
    let mut engine2 = ArbitrageEngine::new(test_config(5), now);
    engine2.add_strategy(permissive_strategy(now));
    // Fresh opportunities carry zero net profit, below a floor of 5.
    let poor = test_opportunity("poor", now);
    assert!(engine2.process_opportunity(poor, now).is_none());
}

#[test]
fn test_engine_cleanup_expires_stale_entries() {
    let now = 1_700_000_000_000i64;
    let mut engine = ArbitrageEngine::new(test_config(-1), now);
    engine.add_strategy(permissive_strategy(now));
    let opp = test_opportunity("short-lived", now);
    assert!(engine.process_opportunity(opp, now).is_some());
    assert_eq!(engine.get_active_opportunities().len(), 1);
    engine.cleanup_expired_opportunities(now + 31_000);
    assert_eq!(engine.get_active_opportunities().len(), 0);
    let expired = engine.search_opportunities(None, None, None);
    assert_eq!(expired.len(), 1);
    assert_eq!(expired[0].status, OpportunityStatus::Expired);
}

#[test]
fn test_risk_score_monotone_in_liquidity() {
    let now = 1_700_000_000_000i64;
    let rich_buy = pool("b", DexType::Raydium, 1, 2, 1_000_000, 1_000_000, 0, now);
    let rich_sell = pool("s", DexType::Meteora, 1, 2, 1_010_000, 1_000_000, 0, now);
    let baseline = ArbitrageOpportunity::calculate_risk_score(&rich_buy, &rich_sell, 10_000, now);
    let poor_buy = rich_buy.clone().update_reserves(999, 1_000_000, now);
    let lowered = ArbitrageOpportunity::calculate_risk_score(&poor_buy, &rich_sell, 10_000, now);
    assert!(lowered.rank() >= baseline.rank());
    let poor_sell = rich_sell.clone().update_reserves(999, 999, now);
    let both = ArbitrageOpportunity::calculate_risk_score(&poor_buy, &poor_sell, 10_000, now);
    assert!(both.rank() >= lowered.rank());
}

#[test]
fn test_risk_score_bands() {
    let now = 1_700_000_000_000i64;
    let rich = pool("b", DexType::Raydium, 1, 2, 1_000_000, 1_000_000, 0, now);
    // Healthy reserves, moderate profit, fresh snapshot: low risk.
    assert_eq!(
        ArbitrageOpportunity::calculate_risk_score(&rich, &rich, 10_000, now),
        RiskScore::Low
    );
    // Suspiciously high profit alone adds three points: medium.
    assert_eq!(
        ArbitrageOpportunity::calculate_risk_score(&rich, &rich, 60_000, now),
        RiskScore::Medium
    );
    // Thin reserves on both sides and tiny profit: high.
    let thin = pool("t", DexType::Raydium, 1, 2, 500, 500, 0, now);
    assert_eq!(
        ArbitrageOpportunity::calculate_risk_score(&thin, &thin, 1_000, now),
        RiskScore::High
    );
    // Thin reserves, suspicious profit and a stale buy pool: critical.
    let stale = pool("u", DexType::Raydium, 1, 2, 500, 500, 0, now - 100 * 3_600_000);
    assert_eq!(
        ArbitrageOpportunity::calculate_risk_score(&stale, &thin, 60_000, now),
        RiskScore::Critical
    );
}

#[test]
fn test_executor_concurrency_ceiling() {
    let now = 1_700_000_000_000i64;
    let mut executor = ArbitrageExecutor::new(1);
    let first = executor.execute_opportunity(test_opportunity("one", now), now);
    assert!(first.is_some());
    let second = executor.execute_opportunity(test_opportunity("two", now), now);
    assert!(second.is_none());
    let stats = executor.get_execution_stats();
    assert_eq!(stats.total_executions, 1);
}

#[test]
fn test_executor_state_machine() {
    let now = 1_700_000_000_000i64;
    let mut execution = ArbitrageExecution::new(test_opportunity("run", now), now);
    assert_eq!(execution.execution_status, ExecutionStatus::Pending);
    check_execution_status(
        &mut execution,
        ChainUpdate::Accepted { signature: "sig-1".to_string() },
    );
    assert_eq!(execution.execution_status, ExecutionStatus::Submitted);
    assert_eq!(execution.transaction_signature.as_deref(), Some("sig-1"));
    check_execution_status(&mut execution, ChainUpdate::Confirmed { profit: 100 });
    assert_eq!(execution.execution_status, ExecutionStatus::Confirmed);
    assert_eq!(execution.actual_profit, Some(100));
    // A terminal record ignores further updates.
    check_execution_status(
        &mut execution,
        ChainUpdate::Rejected { error: "late".to_string() },
    );
    assert_eq!(execution.execution_status, ExecutionStatus::Confirmed);
}

#[test]
fn test_executor_cleanup_retry_and_cancel() {
    let now = 1_700_000_000_000i64;
    let mut executor = ArbitrageExecutor::new(4);
    let forwarded = executor.execute_opportunity(test_opportunity("job", now), now).unwrap();
    let id = forwarded.id.clone();
    executor.apply_chain_update(&id, ChainUpdate::Rejected { error: "slippage".to_string() });
    let stats = executor.get_execution_stats();
    assert_eq!(stats.failed_executions, 1);
    executor.retry_execution(&id);
    let stats = executor.get_execution_stats();
    assert_eq!(stats.failed_executions, 0);
    executor.cancel_execution(&id);
    let stats = executor.get_execution_stats();
    assert_eq!(stats.cancelled_executions, 1);
    executor.monitor_active_executions();
    let stats = executor.get_execution_stats();
    assert_eq!(stats.total_executions, 0);
}

#[test]
fn test_store_search_filters() {
    let now = 1_700_000_000_000i64;
    let mut store = MemoryStore::new(10, 10, now);
    let mut good = test_opportunity("good", now);
    good.net_profit = 50;
    let mut bad = test_opportunity("bad", now);
    bad.net_profit = 1;
    store.save_opportunity(&good);
    store.save_opportunity(&bad);
    let rich_only = store.search_opportunities(Some(10), None, None);
    assert_eq!(rich_only.len(), 1);
    assert_eq!(rich_only[0].id, "good");
    let raydium_only = store.search_opportunities(None, None, Some(vec![DexType::Raydium]));
    // Every test opportunity sells on Meteora, so a Raydium-only filter
    // keeps nothing.
    assert_eq!(raydium_only.len(), 0);
}

#[test]
fn test_transaction_pool_lifecycle() {
    let now = 1_700_000_000_000i64;
    let mut pool = TransactionPool::new(2);
    let first = TransactionRequest::new(1, 2, 500, 9, now);
    let first_id = first.id.clone();
    assert!(pool.add_pending(first).is_ok());
    assert!(pool.add_pending(TransactionRequest::new(3, 4, 700, 9, now)).is_ok());
    // The cap refuses a third request.
    assert!(pool.add_pending(TransactionRequest::new(5, 6, 900, 9, now)).is_err());
    assert_eq!(pool.get_pending().len(), 2);
    let removed = pool.remove_pending(&first_id).unwrap();
    assert_eq!(removed.id, first_id);
    assert!(pool.remove_pending(&first_id).is_none());

    let mut response = TransactionResponse::new(first_id, "sig-9".to_string(), now);
    response.confirm(42, now, now);
    assert!(response.is_confirmed());
    assert_eq!(response.confirmation_status.as_deref(), Some("confirmed"));
    pool.add_confirmed(response);
    let mut failed = TransactionResponse::new("other".to_string(), "sig-8".to_string(), now);
    failed.fail("slippage".to_string(), now);
    assert!(failed.is_failed());
    pool.add_failed(failed);
    assert_eq!(pool.get_confirmed().len(), 1);
    assert_eq!(pool.get_failed().len(), 1);

    // A cleanup two days on drops the timed-out request and both aged
    // responses.
    pool.cleanup_expired(now + 2 * 86_400_000);
    assert_eq!(pool.get_pending().len(), 0);
    assert_eq!(pool.get_confirmed().len(), 0);
    assert_eq!(pool.get_failed().len(), 0);
}

#[test]
fn test_transaction_request_expiry() {
    let now = 1_700_000_000_000i64;
    let request = TransactionRequest::new(1, 2, 500, 9, now).with_retry_config(3, 30);
    assert!(!request.is_expired(now + 30_000));
    assert!(request.is_expired(now + 31_000));
}

#[test]
fn test_store_execution_retention() {
    let now = 1_700_000_000_000i64;
    let mut store = MemoryStore::new(10, 10, now);
    let mut old_exec = ArbitrageExecution::new(test_opportunity("old", now), now - 8 * 86_400_000);
    old_exec.execution_status = ExecutionStatus::Confirmed;
    let fresh_exec = ArbitrageExecution::new(test_opportunity("new", now), now);
    store.save_execution(old_exec);
    store.save_execution(fresh_exec);
    assert_eq!(store.get_storage_usage().executions_count, 2);
    store.cleanup_expired_data(now);
    assert_eq!(store.get_storage_usage().executions_count, 1);
    let (count, profit, fees) = store.get_execution_stats(7, now);
    assert_eq!(count, 1);
    assert_eq!(profit, 0);
    assert_eq!(fees, 0);
}
