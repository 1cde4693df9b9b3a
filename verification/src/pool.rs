//! A liquidity pool for an ordered token pair, and the constant-product
//! arithmetic over its reserves: spot price, swap output, price impact.

use vstd::prelude::*;
use crate::dex::DexType;
use crate::token::Token;
use crate::units::{SCALE, div_or_zero};

verus! {

/// One exchange's liquidity pool for the pair (`token_a`, `token_b`).
/// The price of `token_a` in terms of `token_b` is `reserve_a / reserve_b`,
/// undefined when `reserve_b` is zero. Reserves change only by replacement.
#[derive(Debug)]
pub struct Pool {
    pub id: String,
    pub dex_type: DexType,
    pub token_a: Token,
    pub token_b: Token,
    pub reserve_a: u64,
    pub reserve_b: u64,
    /// Swap fee in millionths.
    pub fee_rate: u64,
    pub pool_address: u64,
    pub authority: u64,
    pub program_id: u64,
    pub version: String,
    pub is_active: bool,
    /// Milliseconds since the Unix epoch.
    pub last_updated: i64,
}

/// Spot price of the token with mint `mint` in this pool, in millionths;
/// `None` when the mint is not one of the pair or the denominator-side
/// reserve is zero.
pub open spec fn spec_price(p: Pool, mint: u64) -> Option<int> {
    if mint == p.token_a.mint {
        if p.reserve_b > 0 {
            Some((p.reserve_a as int * SCALE as int) / p.reserve_b as int)
        } else {
            None
        }
    } else if mint == p.token_b.mint {
        if p.reserve_a > 0 {
            Some((p.reserve_b as int * SCALE as int) / p.reserve_a as int)
        } else {
            None
        }
    } else {
        None
    }
}

/// The reserves seen from a swap that pays in the token with mint `mint`:
/// `Some((input_reserve, output_reserve))`, or `None` when the mint is not
/// in the pair.
pub open spec fn spec_swap_reserves(p: Pool, mint: u64) -> Option<(u64, u64)> {
    if mint == p.token_a.mint {
        Some((p.reserve_a, p.reserve_b))
    } else if mint == p.token_b.mint {
        Some((p.reserve_b, p.reserve_a))
    } else {
        None
    }
}

/// Constant-product swap output for paying `input` of the token with mint
/// `mint`, after the pool fee: `in_fee * out_res / (in_res + in_fee)` with
/// `in_fee = input * (SCALE - fee) / SCALE`. `None` when the mint is not in
/// the pair or a reserve is empty.
pub open spec fn spec_output_amount(p: Pool, input: u64, mint: u64) -> Option<int> {
    match spec_swap_reserves(p, mint) {
        Some((in_res, out_res)) => {
            if in_res == 0 || out_res == 0 {
                None
            } else {
                let in_fee = (input as int * (SCALE - p.fee_rate as u128) as int) / SCALE as int;
                Some((in_fee * out_res as int) / (in_res as int + in_fee))
            }
        },
        None => None,
    }
}

/// Relative price change caused by a swap, in millionths:
/// `|after - before| / before` where `before` is the spot price and
/// `after` the price once the swap has moved both reserves.
pub open spec fn spec_price_impact(p: Pool, input: u64, mint: u64) -> Option<int> {
    match (spec_price(p, mint), spec_output_amount(p, input, mint)) {
        (Some(before), Some(output)) => {
            let (in_res, out_res) = spec_swap_reserves(p, mint)->Some_0;
            if out_res as int - output <= 0 {
                None
            } else {
                let after = ((in_res as int + input as int) * SCALE as int) / (out_res as int
                    - output);
                Some(div_or_zero(crate::dex::spec_abs_diff(after, before) * SCALE as int, before))
            }
        },
        _ => None,
    }
}

impl Pool {
    /// A fresh, active pool with empty reserves and no fee, last updated
    /// at `now` (milliseconds since the Unix epoch).
    pub fn new(
        id: String,
        dex_type: DexType,
        token_a: Token,
        token_b: Token,
        pool_address: u64,
        authority: u64,
        program_id: u64,
        now: i64,
    ) -> (r: Pool)
        ensures
            r.id == id,
            r.dex_type == dex_type,
            r.token_a == token_a,
            r.token_b == token_b,
            r.reserve_a == 0,
            r.reserve_b == 0,
            r.fee_rate == 0,
            r.pool_address == pool_address,
            r.authority == authority,
            r.program_id == program_id,
            r.version@ == "1.0"@,
            r.is_active,
            r.last_updated == now,
    {
        Pool {
            id,
            dex_type,
            token_a,
            token_b,
            reserve_a: 0,
            reserve_b: 0,
            fee_rate: 0,
            pool_address,
            authority,
            program_id,
            version: String::from_str("1.0"),
            is_active: true,
            last_updated: now,
        }
    }

    /// The pool with fresh reserve snapshots, stamped `now`.
    pub fn update_reserves(self, reserve_a: u64, reserve_b: u64, now: i64) -> (r: Pool)
        ensures
            r == (Pool { reserve_a, reserve_b, last_updated: now, ..self }),
    {
        Pool { reserve_a, reserve_b, last_updated: now, ..self }
    }

    /// The pool with its fee rate replaced (millionths).
    pub fn with_fee_rate(self, fee_rate: u64) -> (r: Pool)
        ensures
            r == (Pool { fee_rate, ..self }),
    {
        Pool { fee_rate, ..self }
    }

    /// Spot price of `base_token` in this pool, in millionths. `None` iff
    /// the token is not in the pair or the denominator-side reserve is zero.
    pub fn get_price(&self, base_token: &Token) -> (r: Option<u128>)
        ensures
            r is Some <==> spec_price(*self, base_token.mint) is Some,
            r is Some ==> r->0 as int == spec_price(*self, base_token.mint)->Some_0,
            r is Some ==> r->0 <= crate::units::max_price(),
    {
        if base_token.mint == self.token_a.mint {
            if self.reserve_b > 0 {
                let num: u128 = self.reserve_a as u128 * SCALE;
                proof {
                    crate::units::lemma_div_bound(
                        num as int,
                        self.reserve_b as int,
                        crate::units::max_price(),
                    );
                    assert(num <= crate::units::max_price() * self.reserve_b) by (nonlinear_arith)
                        requires
                            num == self.reserve_a as int * SCALE as int,
                            self.reserve_a <= u64::MAX,
                            self.reserve_b >= 1,
                    ;
                }
                Some(num / (self.reserve_b as u128))
            } else {
                None
            }
        } else if base_token.mint == self.token_b.mint {
            if self.reserve_a > 0 {
                let num: u128 = self.reserve_b as u128 * SCALE;
                proof {
                    crate::units::lemma_div_bound(
                        num as int,
                        self.reserve_a as int,
                        crate::units::max_price(),
                    );
                    assert(num <= crate::units::max_price() * self.reserve_a) by (nonlinear_arith)
                        requires
                            num == self.reserve_b as int * SCALE as int,
                            self.reserve_b <= u64::MAX,
                            self.reserve_a >= 1,
                    ;
                }
                Some(num / (self.reserve_a as u128))
            } else {
                None
            }
        } else {
            None
        }
    }

    /// Constant-product swap output after the pool fee. `None` iff the
    /// input token is not in the pair or a reserve is empty.
    pub fn calculate_output_amount(&self, input_amount: u64, input_token: &Token) -> (r: Option<
        u64,
    >)
        requires
            self.fee_rate <= SCALE,
        ensures
            r is Some <==> spec_output_amount(*self, input_amount, input_token.mint) is Some,
            r is Some ==> r->0 as int == spec_output_amount(
                *self,
                input_amount,
                input_token.mint,
            )->Some_0,
    {
        let (input_reserve, output_reserve): (u64, u64) = if input_token.mint
            == self.token_a.mint {
            (self.reserve_a, self.reserve_b)
        } else if input_token.mint == self.token_b.mint {
            (self.reserve_b, self.reserve_a)
        } else {
            return None;
        };
        if input_reserve == 0 || output_reserve == 0 {
            return None;
        }
        let fee_multiplier: u128 = SCALE - self.fee_rate as u128;
        proof {
            crate::units::lemma_mul_bounds(
                input_amount as int,
                fee_multiplier as int,
                u64::MAX as int,
                SCALE as int,
            );
            assert((input_amount as int) * (fee_multiplier as int) <= (input_amount as int) * (
            SCALE as int)) by (nonlinear_arith)
                requires
                    0 <= input_amount,
                    0 <= fee_multiplier <= SCALE,
            ;
            crate::units::lemma_div_bound(
                (input_amount as int) * (fee_multiplier as int),
                SCALE as int,
                input_amount as int,
            );
        }
        let input_with_fee: u128 = (input_amount as u128 * fee_multiplier) / SCALE;
        proof {
            crate::units::lemma_mul_bounds(
                input_with_fee as int,
                output_reserve as int,
                u64::MAX as int,
                u64::MAX as int,
            );
        }
        let numerator: u128 = input_with_fee * output_reserve as u128;
        let denominator: u128 = input_reserve as u128 + input_with_fee;
        proof {
            assert(numerator <= output_reserve * denominator) by (nonlinear_arith)
                requires
                    numerator == input_with_fee * output_reserve,
                    denominator == input_reserve + input_with_fee,
                    input_reserve >= 1,
                    0 <= input_with_fee,
                    0 <= output_reserve,
            ;
            crate::units::lemma_div_bound(
                numerator as int,
                denominator as int,
                output_reserve as int,
            );
        }
        Some((numerator / denominator) as u64)
    }

    /// Relative price change a swap of `input_amount` would cause, in
    /// millionths. `None` iff price or output is undefined, or the swap
    /// would drain the output reserve.
    pub fn calculate_price_impact(&self, input_amount: u64, input_token: &Token) -> (r: Option<
        u128,
    >)
        requires
            self.fee_rate <= SCALE,
        ensures
            r is Some <==> spec_price_impact(*self, input_amount, input_token.mint) is Some,
            r is Some ==> r->0 as int == spec_price_impact(
                *self,
                input_amount,
                input_token.mint,
            )->Some_0,
    {
        let price_before: u128 = match self.get_price(input_token) {
            Some(p) => p,
            None => { return None },
        };
        let output_amount: u64 = match self.calculate_output_amount(input_amount, input_token) {
            Some(o) => o,
            None => { return None },
        };
        let (input_reserve, output_reserve): (u64, u64) = if input_token.mint
            == self.token_a.mint {
            (self.reserve_a, self.reserve_b)
        } else {
            (self.reserve_b, self.reserve_a)
        };
        if output_reserve <= output_amount {
            return None;
        }
        let new_input_reserve: u128 = input_reserve as u128 + input_amount as u128;
        let new_output_reserve: u128 = output_reserve as u128 - output_amount as u128;
        let num: u128 = new_input_reserve * SCALE;
        proof {
            crate::units::lemma_mul_bounds(
                new_input_reserve as int,
                SCALE as int,
                u64::MAX as int + u64::MAX as int,
                SCALE as int,
            );
            assert(num as int <= num as int * new_output_reserve) by (nonlinear_arith)
                requires
                    new_output_reserve >= 1,
                    num >= 0,
            ;
            crate::units::lemma_div_bound(
                num as int,
                new_output_reserve as int,
                num as int,
            );
        }
        let price_after: u128 = num / new_output_reserve;
        let diff: u128 = if price_after >= price_before {
            price_after - price_before
        } else {
            price_before - price_after
        };
        let scaled: u128 = diff * SCALE;
        proof {
            crate::units::lemma_mul_bounds(
                diff as int,
                SCALE as int,
                (u64::MAX as int + u64::MAX as int) * SCALE as int,
                SCALE as int,
            );
            if price_before > 0 {
                assert(scaled as int <= scaled as int * price_before) by (nonlinear_arith)
                    requires
                        price_before >= 1,
                        scaled >= 0,
                ;
                crate::units::lemma_div_bound(
                    scaled as int,
                    price_before as int,
                    scaled as int,
                );
            }
        }
        if price_before > 0 {
            Some(scaled / price_before)
        } else {
            Some(0)
        }
    }
}

impl Clone for Pool {
    fn clone(&self) -> (r: Pool)
        ensures
            r == *self,
    {
        Pool {
            id: self.id.clone(),
            dex_type: self.dex_type,
            token_a: self.token_a.clone(),
            token_b: self.token_b.clone(),
            reserve_a: self.reserve_a,
            reserve_b: self.reserve_b,
            fee_rate: self.fee_rate,
            pool_address: self.pool_address,
            authority: self.authority,
            program_id: self.program_id,
            version: self.version.clone(),
            is_active: self.is_active,
            last_updated: self.last_updated,
        }
    }
}

} // verus!
