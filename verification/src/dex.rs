//! The closed set of supported exchanges, the errors their adapters report,
//! and the pure helper computations every adapter shares.

use vstd::prelude::*;
use crate::units::SCALE;
use crate::pool::Pool;
use crate::token::Token;

verus! {

/// One of the supported decentralized exchanges.
#[derive(Clone, Copy, PartialEq, Eq, Structural, Debug, Hash)]
pub enum DexType {
    Raydium,
    Meteora,
    Whirlpool,
    Pump,
}

impl DexType {
    /// The exchange's display name.
    pub fn name(&self) -> (r: &'static str)
        ensures
            self is Raydium ==> r@ == "Raydium"@,
            self is Meteora ==> r@ == "Meteora"@,
            self is Whirlpool ==> r@ == "Whirlpool"@,
            self is Pump ==> r@ == "Pump"@,
    {
        match self {
            DexType::Raydium => "Raydium",
            DexType::Meteora => "Meteora",
            DexType::Whirlpool => "Whirlpool",
            DexType::Pump => "Pump",
        }
    }
}

/// Whether a DEX set contains the given exchange.
pub open spec fn spec_contains_dex(dexes: Seq<DexType>, d: DexType) -> bool {
    exists|i: int| 0 <= i < dexes.len() && dexes[i] == d
}

/// Linear membership test over a list of exchanges.
pub fn contains_dex(dexes: &Vec<DexType>, d: DexType) -> (r: bool)
    ensures
        r == spec_contains_dex(dexes@, d),
{
    let mut i: usize = 0;
    while i < dexes.len()
        invariant
            0 <= i <= dexes@.len(),
            forall|j: int| 0 <= j < i ==> dexes@[j] != d,
        decreases dexes@.len() - i,
    {
        if dexes[i] == d {
            assert(spec_contains_dex(dexes@, d));
            return true;
        }
        i = i + 1;
    }
    false
}

/// A failure reported by a DEX adapter.
#[derive(Debug)]
pub enum DexError {
    ConnectionFailed(String),
    AuthenticationFailed(String),
    RateLimitExceeded(String),
    InvalidResponse(String),
    PoolNotFound(String),
    InsufficientLiquidity(String),
    TransactionFailed(String),
    SlippageExceeded(String),
    Timeout(String),
    Internal(String),
}

/// Connection state of one adapter.
#[derive(Debug)]
pub enum DexConnectionStatus {
    Connected,
    Connecting,
    Disconnected,
    Error(String),
}

/// How an adapter reaches its exchange.
#[derive(Debug)]
pub struct DexConnectionConfig {
    pub base_url: String,
    pub api_key: Option<String>,
    pub timeout_seconds: u64,
    pub max_retries: u32,
    pub rate_limit: u32,
}

/// Pure computations shared by every DEX adapter.
pub struct DexHelpers;

impl DexHelpers {
    /// Price impact of a swap against a constant-product pool, in millionths:
    /// `input / (input_reserve + input)`.
    ///
    /// Fails exactly when a reserve is zero.
    pub fn calculate_price_impact(
        input_amount: u64,
        input_reserve: u64,
        output_reserve: u64,
        fee_rate: u64,
    ) -> (r: Result<u128, DexError>)
        requires
            fee_rate <= SCALE,
        ensures
            r is Ok <==> input_reserve > 0 && output_reserve > 0,
            r is Ok ==> r->Ok_0 == (input_amount * SCALE) as int / (input_reserve
                + input_amount) as int,
            r is Ok ==> r->Ok_0 <= SCALE,
    {
        if input_reserve == 0 || output_reserve == 0 {
            return Err(DexError::InsufficientLiquidity(String::from_str("Invalid reserves")));
        }
        let denom: u128 = input_reserve as u128 + input_amount as u128;
        let num: u128 = input_amount as u128 * SCALE;
        proof {
            crate::units::lemma_div_bound(num as int, denom as int, SCALE as int);
            assert(num <= SCALE * denom) by (nonlinear_arith)
                requires
                    num == input_amount * SCALE,
                    denom >= input_amount,
                    denom >= 1,
            ;
        }
        Ok(num / denom)
    }

    /// Whether the realized output stays within the tolerated slippage:
    /// `|expected - actual| / expected <= max_slippage`. False when nothing
    /// was expected.
    pub fn validate_slippage(expected_output: u64, actual_output: u64, max_slippage: u128) -> (r:
        bool)
        ensures
            expected_output == 0 ==> r == false,
            expected_output > 0 ==> r == (spec_abs_diff(
                expected_output as int,
                actual_output as int,
            ) * SCALE / (expected_output as int) <= max_slippage),
    {
        if expected_output == 0 {
            return false;
        }
        let diff: u64 = if expected_output >= actual_output {
            expected_output - actual_output
        } else {
            actual_output - expected_output
        };
        let slippage: u128 = (diff as u128 * SCALE) / (expected_output as u128);
        slippage <= max_slippage
    }
}

/// The combined reserves a routing choice weighs.
pub open spec fn spec_liquidity(p: Pool) -> int {
    p.reserve_a + p.reserve_b
}

/// `i` points at the pool the router picks among the direct candidates:
/// no candidate holds more liquidity, and every later candidate holds
/// strictly less.
pub open spec fn spec_is_routing_pick(s: Seq<Pool>, i: int) -> bool {
    &&& 0 <= i < s.len()
    &&& forall|j: int| 0 <= j < s.len() ==> spec_liquidity(s[j]) <= spec_liquidity(s[i])
    &&& forall|j: int| i < j < s.len() ==> spec_liquidity(s[j]) < spec_liquidity(s[i])
}

/// The index the router picks.
pub open spec fn spec_routing_pick(s: Seq<Pool>) -> int {
    choose|i: int| spec_is_routing_pick(s, i)
}

impl DexHelpers {
    /// The single-hop route for a pair: among the pools trading the two
    /// tokens directly, the one with the deepest combined reserves (the
    /// last such on a tie). Fails exactly when no pool trades the pair.
    pub fn find_optimal_route(
        pools: &Vec<Pool>,
        input_token: &Token,
        output_token: &Token,
        _input_amount: u64,
    ) -> (r: Result<Vec<Pool>, DexError>)
        ensures
            ({
                let direct = crate::scanner::spec_pools_for_pair(
                    pools@,
                    input_token.mint,
                    output_token.mint,
                );
                &&& (r is Ok <==> direct.len() > 0)
                &&& r is Ok ==> r->Ok_0@.len() == 1 && r->Ok_0@[0] == direct[spec_routing_pick(
                    direct,
                )] && spec_is_routing_pick(direct, spec_routing_pick(direct))
            }),
    {
        if pools.len() == 0 {
            return Err(DexError::PoolNotFound(String::from_str("No pools available")));
        }
        let mut direct: Vec<Pool> = Vec::new();
        let mut i: usize = 0;
        proof {
            assert(pools@.take(0) =~= Seq::<Pool>::empty());
        }
        while i < pools.len()
            invariant
                0 <= i <= pools@.len(),
                direct@ == crate::scanner::spec_pools_for_pair(
                    pools@.take(i as int),
                    input_token.mint,
                    output_token.mint,
                ),
            decreases pools@.len() - i,
        {
            proof {
                assert(pools@.take(i + 1).drop_last() =~= pools@.take(i as int));
                assert(pools@.take(i + 1).last() == pools@[i as int]);
            }
            let pool = &pools[i];
            if (pool.token_a.mint == input_token.mint && pool.token_b.mint == output_token.mint)
                || (pool.token_a.mint == output_token.mint && pool.token_b.mint
                == input_token.mint) {
                direct.push(pool.clone());
            }
            i = i + 1;
        }
        proof {
            assert(pools@.take(i as int) =~= pools@);
        }
        if direct.len() == 0 {
            return Err(DexError::PoolNotFound(String::from_str("No direct path found")));
        }
        let mut best: usize = 0;
        let mut k: usize = 1;
        while k < direct.len()
            invariant
                0 <= best < k <= direct@.len(),
                forall|j: int| 0 <= j < k ==> spec_liquidity(direct@[j]) <= spec_liquidity(
                    direct@[best as int],
                ),
                forall|j: int| best < j < k ==> spec_liquidity(direct@[j]) < spec_liquidity(
                    direct@[best as int],
                ),
            decreases direct@.len() - k,
        {
            let challenger: u128 = direct[k].reserve_a as u128 + direct[k].reserve_b as u128;
            let incumbent: u128 = direct[best].reserve_a as u128 + direct[best].reserve_b as u128;
            if challenger >= incumbent {
                best = k;
            }
            k = k + 1;
        }
        proof {
            assert(spec_is_routing_pick(direct@, best as int));
            let other = spec_routing_pick(direct@);
            assert(spec_is_routing_pick(direct@, other));
            if best < other {
                assert(spec_liquidity(direct@[other]) < spec_liquidity(direct@[best as int]));
                assert(spec_liquidity(direct@[best as int]) <= spec_liquidity(direct@[other]));
            } else if other < best as int {
                assert(spec_liquidity(direct@[best as int]) < spec_liquidity(direct@[other]));
                assert(spec_liquidity(direct@[other]) <= spec_liquidity(direct@[best as int]));
            }
        }
        let mut route: Vec<Pool> = Vec::new();
        route.push(direct[best].clone());
        Ok(route)
    }
}

/// Absolute difference of two integers.
pub open spec fn spec_abs_diff(a: int, b: int) -> int {
    if a >= b {
        a - b
    } else {
        b - a
    }
}

} // verus!
