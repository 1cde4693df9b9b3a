//! The configuration surface the pipeline consumes. Fractions and
//! multipliers are in millionths; durations in seconds.

use vstd::prelude::*;

verus! {

/// Database backup settings.
#[derive(Debug)]
pub struct DatabaseConfig {
    pub url: String,
    pub max_connections: u32,
    pub timeout_seconds: u64,
}

/// In-memory store capacities and cleanup cadence.
#[derive(Debug)]
pub struct MemoryStoreConfig {
    pub enabled: bool,
    pub max_opportunities: usize,
    pub max_executions: usize,
    pub cleanup_interval_seconds: u64,
    pub data_retention_days: u64,
}

impl Clone for MemoryStoreConfig {
    fn clone(&self) -> (r: MemoryStoreConfig)
        ensures
            r == *self,
    {
        MemoryStoreConfig {
            enabled: self.enabled,
            max_opportunities: self.max_opportunities,
            max_executions: self.max_executions,
            cleanup_interval_seconds: self.cleanup_interval_seconds,
            data_retention_days: self.data_retention_days,
        }
    }
}

impl Default for MemoryStoreConfig {
    /// The stock store sizing: 10000 opportunities, 50000 executions,
    /// a five-minute cleanup cadence and a week of retention.
    fn default() -> (r: MemoryStoreConfig)
        ensures
            r.enabled,
            r.max_opportunities == 10_000,
            r.max_executions == 50_000,
            r.cleanup_interval_seconds == 300,
            r.data_retention_days == 7,
    {
        MemoryStoreConfig {
            enabled: true,
            max_opportunities: 10_000,
            max_executions: 50_000,
            cleanup_interval_seconds: 300,
            data_retention_days: 7,
        }
    }
}

/// Chain endpoints.
#[derive(Debug)]
pub struct SolanaConfig {
    pub rpc_url: String,
    pub ws_url: String,
    pub commitment: String,
    pub jito_url: String,
    pub jito_auth_header: String,
}

/// One exchange endpoint.
#[derive(Debug)]
pub struct DexEndpointConfig {
    pub base_url: String,
    pub api_key: String,
    pub timeout_seconds: u64,
    pub rate_limit: u32,
}

/// Endpoints for every supported exchange.
#[derive(Debug)]
pub struct DexConfig {
    pub raydium: DexEndpointConfig,
    pub meteora: DexEndpointConfig,
    pub whirlpool: DexEndpointConfig,
    pub pump: DexEndpointConfig,
}

/// Pipeline thresholds. The profit threshold is in millionths and may be
/// negative to accept any net profit.
#[derive(Debug)]
pub struct ArbitrageConfig {
    pub min_profit_threshold: i64,
    pub max_slippage: u128,
    pub gas_price_multiplier: u128,
    pub max_concurrent_opportunities: usize,
    pub execution_timeout_seconds: u64,
}

impl Clone for ArbitrageConfig {
    fn clone(&self) -> (r: ArbitrageConfig)
        ensures
            r == *self,
    {
        ArbitrageConfig {
            min_profit_threshold: self.min_profit_threshold,
            max_slippage: self.max_slippage,
            gas_price_multiplier: self.gas_price_multiplier,
            max_concurrent_opportunities: self.max_concurrent_opportunities,
            execution_timeout_seconds: self.execution_timeout_seconds,
        }
    }
}

/// Log sink settings.
#[derive(Debug)]
pub struct LoggingConfig {
    pub level: String,
    pub file_path: String,
    pub max_file_size: u64,
    pub max_files: u32,
}

/// Why a configuration is rejected.
#[derive(Clone, Copy, PartialEq, Eq, Structural, Debug)]
pub enum ConfigError {
    MissingRpcUrl,
    MissingJitoUrl,
    NonPositiveProfitThreshold,
}

/// The first configuration failure, if any.
pub open spec fn spec_validate_config(c: AppConfig) -> Option<ConfigError> {
    if c.solana.rpc_url@.len() == 0 {
        Some(ConfigError::MissingRpcUrl)
    } else if c.solana.jito_url@.len() == 0 {
        Some(ConfigError::MissingJitoUrl)
    } else if c.arbitrage.min_profit_threshold <= 0 {
        Some(ConfigError::NonPositiveProfitThreshold)
    } else {
        None
    }
}

/// The whole configuration surface.
#[derive(Debug)]
pub struct AppConfig {
    pub database: DatabaseConfig,
    pub memory_store: MemoryStoreConfig,
    pub solana: SolanaConfig,
    pub dex: DexConfig,
    pub arbitrage: ArbitrageConfig,
    pub logging: LoggingConfig,
    pub environment: String,
}

impl AppConfig {
    /// Reject a configuration missing its endpoints or with a
    /// non-positive profit threshold; the first violated rule is
    /// reported.
    pub fn validate(&self) -> (r: Result<(), ConfigError>)
        ensures
            r is Ok <==> spec_validate_config(*self) is None,
            r is Err ==> Some(r->Err_0) == spec_validate_config(*self),
    {
        if self.solana.rpc_url.as_str().unicode_len() == 0 {
            return Err(ConfigError::MissingRpcUrl);
        }
        if self.solana.jito_url.as_str().unicode_len() == 0 {
            return Err(ConfigError::MissingJitoUrl);
        }
        if self.arbitrage.min_profit_threshold <= 0 {
            return Err(ConfigError::NonPositiveProfitThreshold);
        }
        Ok(())
    }

    /// A copy of the store sizing.
    pub fn get_memory_store_config(&self) -> (r: MemoryStoreConfig)
        ensures
            r == self.memory_store,
    {
        self.memory_store.clone()
    }

    /// Whether the in-memory store is enabled.
    pub fn is_memory_store_enabled(&self) -> (r: bool)
        ensures
            r == self.memory_store.enabled,
    {
        self.memory_store.enabled
    }
}

} // verus!
