//! The opportunity scanner: it canonicalizes the token pairs present in
//! a pool snapshot, compares prices pairwise across the pools of each
//! pair, and emits an opportunity for every gap whose profit clears the
//! configured threshold.

use vstd::prelude::*;
use crate::arbitrage::ArbitrageOpportunity;
use crate::config::AppConfig;
use crate::pool::{Pool, spec_price};
use crate::token::Token;
use crate::units::{SCALE, valid_timestamp, div_or_zero};

verus! {

/// How often a scan cycle runs, in seconds.
pub const SCAN_INTERVAL_SECONDS: u64 = 5;

/// One detected price gap between two pools of the same pair.
#[derive(Debug)]
pub struct PriceGap {
    pub buy_pool: Pool,
    pub sell_pool: Pool,
    /// Millionths.
    pub price_difference: u128,
    /// Fraction in millionths.
    pub profit_percentage: u128,
}

/// The canonical key of a pool's pair: its two mints, smaller first.
pub open spec fn spec_pair_key(p: Pool) -> (u64, u64) {
    if p.token_a.mint < p.token_b.mint {
        (p.token_a.mint, p.token_b.mint)
    } else {
        (p.token_b.mint, p.token_a.mint)
    }
}

/// The distinct pair keys of a pool snapshot, in first-appearance order.
pub open spec fn spec_pair_keys(pools: Seq<Pool>) -> Seq<(u64, u64)>
    decreases pools.len(),
{
    if pools.len() == 0 {
        Seq::empty()
    } else {
        let prefix = spec_pair_keys(pools.drop_last());
        if prefix.contains(spec_pair_key(pools.last())) {
            prefix
        } else {
            prefix.push(spec_pair_key(pools.last()))
        }
    }
}

/// Whether a pool trades exactly the unordered pair (`mint_a`,
/// `mint_b`).
pub open spec fn spec_pool_matches_pair(p: Pool, mint_a: u64, mint_b: u64) -> bool {
    (p.token_a.mint == mint_a && p.token_b.mint == mint_b) || (p.token_a.mint == mint_b
        && p.token_b.mint == mint_a)
}

/// The pools of a snapshot trading the unordered pair, in snapshot
/// order.
pub open spec fn spec_pools_for_pair(pools: Seq<Pool>, mint_a: u64, mint_b: u64) -> Seq<Pool>
    decreases pools.len(),
{
    if pools.len() == 0 {
        Seq::empty()
    } else {
        let prefix = spec_pools_for_pair(pools.drop_last(), mint_a, mint_b);
        if spec_pool_matches_pair(pools.last(), mint_a, mint_b) {
            prefix.push(pools.last())
        } else {
            prefix
        }
    }
}

/// The gap between two pools, priced on `mint`: defined only when both
/// prices are; the cheaper pool buys, the dearer sells, and the profit
/// fraction is the difference over the smaller price.
pub open spec fn spec_gap(a: Pool, b: Pool, mint: u64) -> Option<PriceGap> {
    match (spec_price(a, mint), spec_price(b, mint)) {
        (Some(pa), Some(pb)) => {
            let diff = if pa > pb {
                pa - pb
            } else {
                pb - pa
            };
            let low = if pa <= pb {
                pa
            } else {
                pb
            };
            let (buy, sell) = if pa < pb {
                (a, b)
            } else {
                (b, a)
            };
            Some(
                PriceGap {
                    buy_pool: buy,
                    sell_pool: sell,
                    price_difference: diff as u128,
                    profit_percentage: div_or_zero(diff * SCALE as int, low) as u128,
                },
            )
        },
        _ => None,
    }
}

/// All gaps of a pool list, enumerating the combinations `(i, j)` with
/// `i < j` in order, starting from the given position.
pub open spec fn spec_gaps_from(pools: Seq<Pool>, mint: u64, i: int, j: int) -> Seq<PriceGap>
    decreases pools.len() - i, pools.len() - j,
{
    if i < 0 || j <= i {
        Seq::empty()
    } else if i >= pools.len() {
        Seq::empty()
    } else if j >= pools.len() {
        spec_gaps_from(pools, mint, i + 1, i + 2)
    } else {
        let rest = spec_gaps_from(pools, mint, i, j + 1);
        match spec_gap(pools[i], pools[j], mint) {
            Some(g) => seq![g] + rest,
            None => rest,
        }
    }
}

/// A gap inserted into a list at the first position whose profit falls
/// below its own; used to keep the list sorted best-first.
pub open spec fn spec_insert_desc(g: PriceGap, s: Seq<PriceGap>) -> Seq<PriceGap>
    decreases s.len(),
{
    if s.len() == 0 {
        seq![g]
    } else if s[0].profit_percentage >= g.profit_percentage {
        seq![s[0]] + spec_insert_desc(g, s.drop_first())
    } else {
        seq![g] + s
    }
}

/// A list sorted best-first by repeated insertion, keeping the relative
/// order of equal profits.
pub open spec fn spec_sort_desc(s: Seq<PriceGap>) -> Seq<PriceGap>
    decreases s.len(),
{
    if s.len() == 0 {
        Seq::empty()
    } else {
        spec_insert_desc(s.last(), spec_sort_desc(s.drop_last()))
    }
}

/// Inserting at the first position whose profit falls below `g`'s is
/// exactly a split at that position.
pub proof fn lemma_insert_desc_at(g: PriceGap, s: Seq<PriceGap>, pos: int)
    requires
        0 <= pos <= s.len(),
        forall|k: int| 0 <= k < pos ==> s[k].profit_percentage >= g.profit_percentage,
        pos < s.len() ==> s[pos].profit_percentage < g.profit_percentage,
    ensures
        spec_insert_desc(g, s) == s.take(pos) + seq![g] + s.skip(pos),
    decreases pos,
{
    if s.len() == 0 {
        assert(spec_insert_desc(g, s) =~= s.take(pos) + seq![g] + s.skip(pos));
    } else if pos == 0 {
        assert(spec_insert_desc(g, s) =~= s.take(0) + seq![g] + s.skip(0));
    } else {
        assert(forall|k: int|
            0 <= k < pos - 1 ==> s.drop_first()[k].profit_percentage >= g.profit_percentage);
        if pos < s.len() {
            assert(s.drop_first()[pos - 1] == s[pos]);
        }
        lemma_insert_desc_at(g, s.drop_first(), pos - 1);
        assert(spec_insert_desc(g, s) == seq![s[0]] + (s.drop_first().take(pos - 1) + seq![g]
            + s.drop_first().skip(pos - 1)));
        assert(seq![s[0]] + (s.drop_first().take(pos - 1) + seq![g] + s.drop_first().skip(
            pos - 1,
        )) =~= s.take(pos) + seq![g] + s.skip(pos));
    }
}

/// The gaps whose profit clears the threshold, in order.
pub open spec fn spec_qualifying(s: Seq<PriceGap>, threshold: u128) -> Seq<PriceGap>
    decreases s.len(),
{
    if s.len() == 0 {
        Seq::empty()
    } else {
        let prefix = spec_qualifying(s.drop_last(), threshold);
        if s.last().profit_percentage >= threshold {
            prefix.push(s.last())
        } else {
            prefix
        }
    }
}

/// The qualifying gaps a scan finds for one pair key: fewer than two
/// pools yield nothing; otherwise the pair's gaps, priced on the smaller
/// mint, sorted best-first and filtered at the threshold.
pub open spec fn spec_pair_results(pools: Seq<Pool>, key: (u64, u64), threshold: u128) -> Seq<
    PriceGap,
> {
    let pair_pools = spec_pools_for_pair(pools, key.0, key.1);
    if pair_pools.len() < 2 {
        Seq::empty()
    } else {
        spec_qualifying(spec_sort_desc(spec_gaps_from(pair_pools, key.0, 0, 1)), threshold)
    }
}

/// How many opportunities a scan emits over the first `upto` pair keys.
pub open spec fn spec_scan_count(pools: Seq<Pool>, threshold: u128, upto: int) -> int
    decreases upto,
{
    if upto <= 0 {
        0
    } else {
        spec_scan_count(pools, threshold, upto - 1) + spec_pair_results(
            pools,
            spec_pair_keys(pools)[upto - 1],
            threshold,
        ).len()
    }
}

/// Whether opportunity `m` of a scan's output realizes gap `g` of pair
/// key number `kidx`, freshly stamped at `now`.
pub open spec fn spec_opp_realizes_gap(
    o: ArbitrageOpportunity,
    pools: Seq<Pool>,
    key: (u64, u64),
    gap: PriceGap,
    now: int,
) -> bool {
    &&& o.base_token.mint == key.0
    &&& o.quote_token.mint == key.1
    &&& o.buy_pool == gap.buy_pool
    &&& o.sell_pool == gap.sell_pool
    &&& o.status is Pending
    &&& o.timestamp == now
    &&& o.expiry == now + crate::arbitrage::OPPORTUNITY_TTL_MILLIS
    &&& o.id@.len() == 36
}

/// Somewhere in the output, an opportunity realizes gap `g` of the pair
/// key at `kidx`.
pub open spec fn spec_gap_covered(
    r: Seq<ArbitrageOpportunity>,
    pools: Seq<Pool>,
    threshold: u128,
    now: int,
    kidx: int,
    g: int,
) -> bool {
    exists|m: int|
        0 <= m < r.len() && spec_opp_realizes_gap(
            #[trigger] r[m],
            pools,
            spec_pair_keys(pools)[kidx],
            spec_pair_results(pools, spec_pair_keys(pools)[kidx], threshold)[g],
            now,
        )
}

/// Output entry `m` realizes some qualifying gap of some pair.
pub open spec fn spec_opp_sourced(
    r: Seq<ArbitrageOpportunity>,
    pools: Seq<Pool>,
    threshold: u128,
    now: int,
    m: int,
) -> bool {
    exists|kidx: int, g: int|
        #![trigger spec_pair_results(pools, spec_pair_keys(pools)[kidx], threshold)[g]]
        0 <= kidx < spec_pair_keys(pools).len() && 0 <= g < spec_pair_results(
            pools,
            spec_pair_keys(pools)[kidx],
            threshold,
        ).len() && spec_opp_realizes_gap(
            r[m],
            pools,
            spec_pair_keys(pools)[kidx],
            spec_pair_results(pools, spec_pair_keys(pools)[kidx], threshold)[g],
            now,
        )
}

/// Output entry `m` realizes some gap of the qualifying list `q` of one
/// pair.
pub open spec fn spec_pair_opp_covered(
    r: Seq<ArbitrageOpportunity>,
    pools: Seq<Pool>,
    key: (u64, u64),
    q: Seq<PriceGap>,
    now: int,
    m: int,
) -> bool {
    exists|gg: int|
        0 <= gg < q.len() && spec_opp_realizes_gap(r[m], pools, key, #[trigger] q[gg], now)
}

/// Gap `gg` of the qualifying list `q` is realized by some output entry
/// at or after position `lo`.
pub open spec fn spec_pair_gap_covered(
    r: Seq<ArbitrageOpportunity>,
    lo: int,
    pools: Seq<Pool>,
    key: (u64, u64),
    q: Seq<PriceGap>,
    now: int,
    gg: int,
) -> bool {
    exists|m: int|
        lo <= m < r.len() && spec_opp_realizes_gap(#[trigger] r[m], pools, key, q[gg], now)
}

/// Scans pool snapshots for cross-pool price gaps.
pub struct OpportunityScanner {
    /// Fraction in millionths; gaps below it are not emitted.
    min_profit_threshold: u128,
    scan_interval_seconds: u64,
}

impl OpportunityScanner {
    /// The profit floor applied to detected gaps.
    pub closed spec fn threshold(self) -> u128 {
        self.min_profit_threshold
    }

    /// Seconds between scan cycles.
    pub closed spec fn interval(self) -> u64 {
        self.scan_interval_seconds
    }

    /// A scanner running at the configured profit floor (a non-positive
    /// configured threshold scans everything) and the stock five-second
    /// cadence.
    pub fn new(config: &AppConfig) -> (r: OpportunityScanner)
        ensures
            r.threshold() == (if config.arbitrage.min_profit_threshold > 0 {
                config.arbitrage.min_profit_threshold as u128
            } else {
                0u128
            }),
            r.interval() == SCAN_INTERVAL_SECONDS,
    {
        let min_profit_threshold: u128 = if config.arbitrage.min_profit_threshold > 0 {
            config.arbitrage.min_profit_threshold as u128
        } else {
            0
        };
        OpportunityScanner { min_profit_threshold, scan_interval_seconds: SCAN_INTERVAL_SECONDS }
    }

    /// The distinct canonical token pairs of a snapshot, first
    /// appearance first; each pair holds real tokens of some pool, in
    /// canonical order.
    pub fn get_token_pairs(&self, all_pools: &Vec<Pool>) -> (r: Vec<(Token, Token)>)
        ensures
            r@.len() == spec_pair_keys(all_pools@).len(),
            forall|i: int|
                0 <= i < r@.len() ==> ((#[trigger] r@[i]).0.mint, r@[i].1.mint)
                    == spec_pair_keys(all_pools@)[i],
            forall|i: int|
                #![trigger r@[i]]
                0 <= i < r@.len() ==> exists|j: int|
                    0 <= j < all_pools@.len() && spec_canonical_tokens(
                        #[trigger] all_pools@[j],
                    ) == (r@[i].0, r@[i].1),
    {
        let mut result: Vec<(Token, Token)> = Vec::new();
        let mut i: usize = 0;
        proof {
            assert(all_pools@.take(0) =~= Seq::<Pool>::empty());
        }
        while i < all_pools.len()
            invariant
                0 <= i <= all_pools@.len(),
                result@.len() == spec_pair_keys(all_pools@.take(i as int)).len(),
                forall|k: int|
                    0 <= k < result@.len() ==> ((#[trigger] result@[k]).0.mint, result@[k].1.mint)
                        == spec_pair_keys(all_pools@.take(i as int))[k],
                forall|k: int|
                    #![trigger result@[k]]
                    0 <= k < result@.len() ==> exists|j: int|
                        0 <= j < all_pools@.len() && spec_canonical_tokens(
                            #[trigger] all_pools@[j],
                        ) == (result@[k].0, result@[k].1),
            decreases all_pools@.len() - i,
        {
            proof {
                assert(all_pools@.take(i + 1).drop_last() =~= all_pools@.take(i as int));
                assert(all_pools@.take(i + 1).last() == all_pools@[i as int]);
            }
            let pool = &all_pools[i];
            let (first, second): (Token, Token) = if pool.token_a.mint < pool.token_b.mint {
                (pool.token_a.clone(), pool.token_b.clone())
            } else {
                (pool.token_b.clone(), pool.token_a.clone())
            };
            let ghost key = spec_pair_key(all_pools@[i as int]);
            proof {
                assert((first.mint, second.mint) == key);
                assert(spec_canonical_tokens(all_pools@[i as int]) == (first, second));
            }
            let mut seen: bool = false;
            let mut k: usize = 0;
            while k < result.len()
                invariant
                    0 <= k <= result@.len(),
                    (first.mint, second.mint) == key,
                    forall|t: int|
                        0 <= t < result@.len() ==> ((#[trigger] result@[t]).0.mint,
                        result@[t].1.mint) == spec_pair_keys(all_pools@.take(i as int))[t],
                    result@.len() == spec_pair_keys(all_pools@.take(i as int)).len(),
                    seen == exists|t: int|
                        0 <= t < k && spec_pair_keys(all_pools@.take(i as int))[t] == key,
                decreases result@.len() - k,
            {
                if result[k].0.mint == first.mint && result[k].1.mint == second.mint {
                    seen = true;
                }
                k = k + 1;
            }
            proof {
                assert(seen == spec_pair_keys(all_pools@.take(i as int)).contains(key));
            }
            if !seen {
                result.push((first, second));
            }
            i = i + 1;
        }
        proof {
            assert(all_pools@.take(i as int) =~= all_pools@);
        }
        result
    }

    /// The pools of the snapshot trading exactly this unordered pair.
    pub fn get_pools_for_token_pair(
        &self,
        all_pools: &Vec<Pool>,
        token_a: &Token,
        token_b: &Token,
    ) -> (r: Vec<Pool>)
        ensures
            r@ == spec_pools_for_pair(all_pools@, token_a.mint, token_b.mint),
    {
        let mut result: Vec<Pool> = Vec::new();
        let mut i: usize = 0;
        proof {
            assert(all_pools@.take(0) =~= Seq::<Pool>::empty());
        }
        while i < all_pools.len()
            invariant
                0 <= i <= all_pools@.len(),
                result@ == spec_pools_for_pair(
                    all_pools@.take(i as int),
                    token_a.mint,
                    token_b.mint,
                ),
            decreases all_pools@.len() - i,
        {
            proof {
                assert(all_pools@.take(i + 1).drop_last() =~= all_pools@.take(i as int));
                assert(all_pools@.take(i + 1).last() == all_pools@[i as int]);
            }
            let pool = &all_pools[i];
            if (pool.token_a.mint == token_a.mint && pool.token_b.mint == token_b.mint) || (
            pool.token_a.mint == token_b.mint && pool.token_b.mint == token_a.mint) {
                result.push(pool.clone());
            }
            i = i + 1;
        }
        proof {
            assert(all_pools@.take(i as int) =~= all_pools@);
        }
        result
    }

    /// Every gap among the pools, priced on `token_a`, sorted best-first
    /// by profit.
    pub fn calculate_price_differences(
        &self,
        pools: &Vec<Pool>,
        token_a: &Token,
        _token_b: &Token,
    ) -> (r: Vec<PriceGap>)
        ensures
            r@ == spec_sort_desc(spec_gaps_from(pools@, token_a.mint, 0, 1)),
            forall|a: int, b: int|
                #![trigger r@[a], r@[b]]
                0 <= a < b < r@.len() ==> r@[a].profit_percentage >= r@[b].profit_percentage,
    {
        let ghost whole = spec_gaps_from(pools@, token_a.mint, 0, 1);
        let mut flat: Vec<PriceGap> = Vec::new();
        let n = pools.len();
        let mut i: usize = 0;
        while i < n
            invariant
                0 <= i <= n,
                n == pools@.len(),
                whole == spec_gaps_from(pools@, token_a.mint, 0, 1),
                whole =~= flat@ + spec_gaps_from(pools@, token_a.mint, i as int, i + 1),
            decreases n - i,
        {
            let mut j: usize = i + 1;
            while j < n
                invariant
                    0 <= i < j <= n,
                    n == pools@.len(),
                    whole == spec_gaps_from(pools@, token_a.mint, 0, 1),
                    whole =~= flat@ + spec_gaps_from(pools@, token_a.mint, i as int, j as int),
                decreases n - j,
            {
                let pool_a = &pools[i];
                let pool_b = &pools[j];
                let price_a = pool_a.get_price(token_a);
                let price_b = pool_b.get_price(token_a);
                match (price_a, price_b) {
                    (Some(pa), Some(pb)) => {
                        let price_diff: u128 = if pa > pb {
                            pa - pb
                        } else {
                            pb - pa
                        };
                        let low: u128 = if pa <= pb {
                            pa
                        } else {
                            pb
                        };
                        let profit_percentage: u128 = if low > 0 {
                            proof {
                                crate::units::lemma_mul_bounds(
                                    price_diff as int,
                                    SCALE as int,
                                    crate::units::max_price(),
                                    SCALE as int,
                                );
                                assert(price_diff * SCALE <= price_diff * SCALE * low)
                                    by (nonlinear_arith)
                                    requires
                                        low >= 1,
                                        price_diff >= 0,
                                ;
                                crate::units::lemma_div_bound(
                                    price_diff as int * SCALE as int,
                                    low as int,
                                    price_diff as int * SCALE as int,
                                );
                            }
                            (price_diff * SCALE) / low
                        } else {
                            0
                        };
                        let (buy_pool, sell_pool): (Pool, Pool) = if pa < pb {
                            (pool_a.clone(), pool_b.clone())
                        } else {
                            (pool_b.clone(), pool_a.clone())
                        };
                        let gap = PriceGap { buy_pool, sell_pool, price_difference: price_diff, profit_percentage };
                        proof {
                            assert(Some(gap) == spec_gap(
                                pools@[i as int],
                                pools@[j as int],
                                token_a.mint,
                            ));
                            assert(spec_gaps_from(pools@, token_a.mint, i as int, j as int)
                                == seq![gap] + spec_gaps_from(
                                pools@,
                                token_a.mint,
                                i as int,
                                j + 1,
                            ));
                        }
                        flat.push(gap);
                        proof {
                            assert(whole =~= flat@ + spec_gaps_from(
                                pools@,
                                token_a.mint,
                                i as int,
                                j + 1,
                            ));
                        }
                    },
                    _ => {
                        proof {
                            assert(spec_gaps_from(pools@, token_a.mint, i as int, j as int)
                                == spec_gaps_from(pools@, token_a.mint, i as int, j + 1));
                        }
                    },
                }
                j = j + 1;
            }
            i = i + 1;
            proof {
                if i < n {
                    assert(spec_gaps_from(pools@, token_a.mint, i - 1, n as int)
                        == spec_gaps_from(pools@, token_a.mint, i as int, i + 1));
                } else {
                    assert(spec_gaps_from(pools@, token_a.mint, i - 1, n as int)
                        == spec_gaps_from(pools@, token_a.mint, i as int, i + 1));
                    assert(spec_gaps_from(pools@, token_a.mint, i as int, i + 1)
                        =~= Seq::<PriceGap>::empty());
                }
            }
        }
        proof {
            assert(spec_gaps_from(pools@, token_a.mint, n as int, n as int + 1)
                =~= Seq::<PriceGap>::empty());
            assert(whole =~= flat@);
        }
        let mut sorted: Vec<PriceGap> = Vec::new();
        let mut t: usize = 0;
        proof {
            assert(flat@.take(0) =~= Seq::<PriceGap>::empty());
        }
        while t < flat.len()
            invariant
                0 <= t <= flat@.len(),
                whole =~= flat@,
                whole == spec_gaps_from(pools@, token_a.mint, 0, 1),
                sorted@ == spec_sort_desc(flat@.take(t as int)),
                forall|a: int, b: int|
                    #![trigger sorted@[a], sorted@[b]]
                    0 <= a < b < sorted@.len() ==> sorted@[a].profit_percentage
                        >= sorted@[b].profit_percentage,
            decreases flat@.len() - t,
        {
            proof {
                assert(flat@.take(t + 1).drop_last() =~= flat@.take(t as int));
                assert(flat@.take(t + 1).last() == flat@[t as int]);
            }
            let entry = take_gap(&mut flat, t);
            let mut pos: usize = 0;
            while pos < sorted.len() && sorted[pos].profit_percentage >= entry.profit_percentage
                invariant
                    0 <= pos <= sorted@.len(),
                    forall|a: int| 0 <= a < pos ==> #[trigger] sorted@[a].profit_percentage
                        >= entry.profit_percentage,
            decreases sorted@.len() - pos,
            {
                pos = pos + 1;
            }
            let ghost before = sorted@;
            sorted.insert(pos, entry);
            proof {
                lemma_insert_desc_at(flat@[t as int], before, pos as int);
                assert(sorted@ =~= before.take(pos as int) + seq![flat@[t as int]] + before.skip(
                    pos as int,
                ));
                assert(sorted@ == spec_insert_desc(flat@[t as int], before));
                let cur = sorted@;
                assert(forall|a: int| 0 <= a < pos ==> cur[a] == before[a]);
                assert(cur[pos as int] == flat@[t as int]);
                assert(forall|a: int| pos < a < cur.len() ==> cur[a] == before[a - 1]);
                assert forall|a: int, b: int| 0 <= a < b < cur.len() implies
                    cur[a].profit_percentage >= cur[b].profit_percentage by {
                    if b < pos {
                    } else if a == pos as int || b == pos as int {
                        if (pos as int) < before.len() && (pos as int) < b {
                            assert(before[pos as int].profit_percentage
                                < flat@[t as int].profit_percentage);
                        }
                    } else {
                    }
                }
            }
            t = t + 1;
        }
        proof {
            assert(flat@.take(t as int) =~= flat@);
        }
        sorted
    }

    /// One scan over a snapshot at `now`: for each canonical pair with
    /// at least two pools, every gap whose profit clears the threshold
    /// becomes a freshly stamped opportunity.
    #[verifier::rlimit(100)]
    pub fn find_arbitrage_opportunities(&self, all_pools: &Vec<Pool>, now: i64) -> (r: Vec<
        ArbitrageOpportunity,
    >)
        requires
            valid_timestamp(now as int),
        ensures
            r@.len() == spec_scan_count(
                all_pools@,
                self.threshold(),
                spec_pair_keys(all_pools@).len() as int,
            ),
            forall|m: int|
                0 <= m < r@.len() ==> #[trigger] spec_opp_sourced(
                    r@,
                    all_pools@,
                    self.threshold(),
                    now as int,
                    m,
                ),
            forall|kidx: int, g: int|
                0 <= kidx < spec_pair_keys(all_pools@).len() && 0 <= g < spec_pair_results(
                    all_pools@,
                    #[trigger] spec_pair_keys(all_pools@)[kidx],
                    self.threshold(),
                ).len() ==> #[trigger] spec_gap_covered(
                    r@,
                    all_pools@,
                    self.threshold(),
                    now as int,
                    kidx,
                    g,
                ),
    {
        let pairs = self.get_token_pairs(all_pools);
        let ghost keys = spec_pair_keys(all_pools@);
        let mut opportunities: Vec<ArbitrageOpportunity> = Vec::new();
        let mut k: usize = 0;
        while k < pairs.len()
            invariant
                0 <= k <= pairs@.len(),
                keys == spec_pair_keys(all_pools@),
                pairs@.len() == keys.len(),
                forall|x: int|
                    0 <= x < pairs@.len() ==> ((#[trigger] pairs@[x]).0.mint, pairs@[x].1.mint)
                        == keys[x],
                valid_timestamp(now as int),
                opportunities@.len() == spec_scan_count(all_pools@, self.threshold(), k as int),
                forall|m: int|
                    0 <= m < opportunities@.len() ==> #[trigger] spec_opp_sourced(
                        opportunities@,
                        all_pools@,
                        self.threshold(),
                        now as int,
                        m,
                    ),
                forall|kidx: int, g: int|
                    0 <= kidx < k && 0 <= g < spec_pair_results(
                        all_pools@,
                        #[trigger] keys[kidx],
                        self.threshold(),
                    ).len() ==> #[trigger] spec_gap_covered(
                        opportunities@,
                        all_pools@,
                        self.threshold(),
                        now as int,
                        kidx,
                        g,
                    ),
            decreases pairs@.len() - k,
        {
            let token_a = &pairs[k].0;
            let token_b = &pairs[k].1;
            let pools_for_pair = self.get_pools_for_token_pair(all_pools, token_a, token_b);
            let ghost key = keys[k as int];
            let ghost pair_results = spec_pair_results(all_pools@, key, self.threshold());
            proof {
                assert(key.0 == token_a.mint && key.1 == token_b.mint);
            }
            if pools_for_pair.len() >= 2 {
                let gaps = self.calculate_price_differences(&pools_for_pair, token_a, token_b);
                proof {
                    assert(pair_results == spec_qualifying(gaps@, self.threshold()));
                }
                let ghost before_pair = opportunities@;
                let mut g: usize = 0;
                proof {
                    assert(gaps@.take(0) =~= Seq::<PriceGap>::empty());
                }
                while g < gaps.len()
                    invariant
                        0 <= g <= gaps@.len(),
                        keys == spec_pair_keys(all_pools@),
                        0 <= k < keys.len(),
                        key == keys[k as int],
                        pair_results == spec_pair_results(all_pools@, key, self.threshold()),
                        pair_results == spec_qualifying(gaps@, self.threshold()),
                        key.0 == token_a.mint && key.1 == token_b.mint,
                        valid_timestamp(now as int),
                        opportunities@.len() == before_pair.len() + spec_qualifying(
                            gaps@.take(g as int),
                            self.threshold(),
                        ).len(),
                        opportunities@.take(before_pair.len() as int) == before_pair,
                        forall|m: int|
                            before_pair.len() <= m < opportunities@.len()
                                ==> #[trigger] spec_pair_opp_covered(
                                opportunities@,
                                all_pools@,
                                key,
                                spec_qualifying(gaps@.take(g as int), self.threshold()),
                                now as int,
                                m,
                            ),
                        forall|gg: int|
                            0 <= gg < spec_qualifying(gaps@.take(g as int), self.threshold()).len()
                                ==> #[trigger] spec_pair_gap_covered(
                                opportunities@,
                                before_pair.len() as int,
                                all_pools@,
                                key,
                                spec_qualifying(gaps@.take(g as int), self.threshold()),
                                now as int,
                                gg,
                            ),
                        forall|m: int|
                            0 <= m < before_pair.len() ==> opportunities@[m] == before_pair[m],
                    decreases gaps@.len() - g,
                {
                    proof {
                        assert(gaps@.take(g + 1).drop_last() =~= gaps@.take(g as int));
                        assert(gaps@.take(g + 1).last() == gaps@[g as int]);
                    }
                    let ghost q_pre = spec_qualifying(gaps@.take(g as int), self.threshold());
                    if gaps[g].profit_percentage >= self.min_profit_threshold {
                        let gap = take_gap_ref(&gaps, g);
                        let opportunity = ArbitrageOpportunity::new(
                            token_a.clone(),
                            token_b.clone(),
                            gap.0,
                            gap.1,
                            now,
                        );
                        proof {
                            assert(spec_opp_realizes_gap(
                                opportunity,
                                all_pools@,
                                key,
                                gaps@[g as int],
                                now as int,
                            ));
                        }
                        let ghost before_push = opportunities@;
                        opportunities.push(opportunity);
                        proof {
                            let q_cur = spec_qualifying(gaps@.take(g + 1), self.threshold());
                            assert(q_cur == q_pre.push(gaps@[g as int]));
                            lemma_push_keeps_pair_cover(
                                before_pair,
                                before_push,
                                opportunities@,
                                q_pre,
                                q_cur,
                                all_pools@,
                                key,
                                gaps@[g as int],
                                opportunity,
                                now as int,
                            );
                        }
                    } else {
                        proof {
                            assert(spec_qualifying(gaps@.take(g + 1), self.threshold()) == q_pre);
                        }
                    }
                    g = g + 1;
                }
                proof {
                    assert(gaps@.take(g as int) =~= gaps@);
                    assert(spec_scan_count(all_pools@, self.threshold(), k + 1)
                        == spec_scan_count(all_pools@, self.threshold(), k as int)
                        + pair_results.len());
                    lemma_pair_cover_to_scan_cover(
                        before_pair,
                        opportunities@,
                        all_pools@,
                        self.threshold(),
                        now as int,
                        k as int,
                    );
                }
            } else {
                proof {
                    assert(pair_results =~= Seq::<PriceGap>::empty());
                    assert(spec_scan_count(all_pools@, self.threshold(), k + 1)
                        == spec_scan_count(all_pools@, self.threshold(), k as int));
                    assert forall|kidx: int, gg: int|
                        0 <= kidx < k + 1 && 0 <= gg < spec_pair_results(
                            all_pools@,
                            #[trigger] keys[kidx],
                            self.threshold(),
                        ).len() implies #[trigger] spec_gap_covered(
                        opportunities@,
                        all_pools@,
                        self.threshold(),
                        now as int,
                        kidx,
                        gg,
                    ) by {
                        if kidx < k {
                            assert(spec_gap_covered(
                                opportunities@,
                                all_pools@,
                                self.threshold(),
                                now as int,
                                kidx,
                                gg,
                            ));
                        }
                    }
                }
            }
            k = k + 1;
        }
        opportunities
    }

    /// Whether a detected opportunity is worth forwarding: its profit
    /// clears the threshold, all four reserves hold at least 1000 units,
    /// and the risk is below critical.
    pub fn validate_opportunity(&self, opportunity: &ArbitrageOpportunity) -> (r: bool)
        ensures
            r == (opportunity.profit_percentage >= self.threshold()
                && opportunity.buy_pool.reserve_a >= 1000 && opportunity.buy_pool.reserve_b >= 1000
                && opportunity.sell_pool.reserve_a >= 1000 && opportunity.sell_pool.reserve_b
                >= 1000 && !(opportunity.risk_score is Critical)),
    {
        if opportunity.profit_percentage < self.min_profit_threshold {
            return false;
        }
        if opportunity.buy_pool.reserve_a < 1000 || opportunity.buy_pool.reserve_b < 1000
            || opportunity.sell_pool.reserve_a < 1000 || opportunity.sell_pool.reserve_b < 1000 {
            return false;
        }
        if matches!(opportunity.risk_score, crate::arbitrage::RiskScore::Critical) {
            return false;
        }
        true
    }

    /// The amount worth trading across a gap: nothing when the sell side
    /// is no dearer; otherwise the smaller of the buy pool's base
    /// reserve and the sell pool's quote reserve, capped at 10000 units.
    pub fn calculate_optimal_amount(
        &self,
        buy_pool: &Pool,
        sell_pool: &Pool,
        token_a: &Token,
    ) -> (r: Option<u64>)
        ensures
            ({
                match (spec_price(*buy_pool, token_a.mint), spec_price(*sell_pool, token_a.mint)) {
                    (Some(bp), Some(sp)) => {
                        if sp <= bp {
                            r is None
                        } else {
                            r is Some && r->0 as int == crate::strategy::spec_min64(
                                crate::strategy::spec_min64(
                                    buy_pool.reserve_a as int,
                                    sell_pool.reserve_b as int,
                                ),
                                10_000,
                            )
                        }
                    },
                    _ => r is None,
                }
            }),
    {
        let buy_price = match buy_pool.get_price(token_a) {
            Some(p) => p,
            None => { return None },
        };
        let sell_price = match sell_pool.get_price(token_a) {
            Some(p) => p,
            None => { return None },
        };
        if sell_price <= buy_price {
            return None;
        }
        let max_amount: u64 = if buy_pool.reserve_a <= sell_pool.reserve_b {
            buy_pool.reserve_a
        } else {
            sell_pool.reserve_b
        };
        if max_amount <= 10_000 {
            Some(max_amount)
        } else {
            Some(10_000)
        }
    }
}

/// The tokens of a pool in canonical (smaller mint first) order.
pub open spec fn spec_canonical_tokens(p: Pool) -> (Token, Token) {
    if p.token_a.mint < p.token_b.mint {
        (p.token_a, p.token_b)
    } else {
        (p.token_b, p.token_a)
    }
}

/// Move the gap at `i` out of the list by value, leaving the list
/// unchanged in the view (the entry is cloned; pools compare equal under
/// clone).
fn take_gap(flat: &mut Vec<PriceGap>, i: usize) -> (r: PriceGap)
    requires
        i < old(flat)@.len(),
    ensures
        *final(flat) == *old(flat),
        r == old(flat)@[i as int],
{
    let entry = &flat[i];
    PriceGap {
        buy_pool: entry.buy_pool.clone(),
        sell_pool: entry.sell_pool.clone(),
        price_difference: entry.price_difference,
        profit_percentage: entry.profit_percentage,
    }
}

/// The two pools of the gap at `i`, as owned copies.
fn take_gap_ref(gaps: &Vec<PriceGap>, i: usize) -> (r: (Pool, Pool))
    requires
        i < gaps@.len(),
    ensures
        r.0 == gaps@[i as int].buy_pool,
        r.1 == gaps@[i as int].sell_pool,
{
    let entry = &gaps[i];
    (entry.buy_pool.clone(), entry.sell_pool.clone())
}

/// Pushing one fresh opportunity that realizes one fresh qualifying gap
/// keeps the two-way correspondence between a pair's emitted
/// opportunities and its qualifying gaps.
#[verifier::rlimit(100)]
proof fn lemma_push_keeps_pair_cover(
    before_pair: Seq<ArbitrageOpportunity>,
    before_push: Seq<ArbitrageOpportunity>,
    cur: Seq<ArbitrageOpportunity>,
    q_pre: Seq<PriceGap>,
    q_cur: Seq<PriceGap>,
    pools: Seq<Pool>,
    key: (u64, u64),
    newgap: PriceGap,
    newopp: ArbitrageOpportunity,
    now: int,
)
    requires
        cur == before_push.push(newopp),
        q_cur == q_pre.push(newgap),
        before_pair.len() <= before_push.len(),
        before_push.take(before_pair.len() as int) == before_pair,
        spec_opp_realizes_gap(newopp, pools, key, newgap, now),
        forall|m: int|
            before_pair.len() <= m < before_push.len() ==> #[trigger] spec_pair_opp_covered(
                before_push,
                pools,
                key,
                q_pre,
                now,
                m,
            ),
        forall|gg: int|
            0 <= gg < q_pre.len() ==> #[trigger] spec_pair_gap_covered(
                before_push,
                before_pair.len() as int,
                pools,
                key,
                q_pre,
                now,
                gg,
            ),
    ensures
        cur.take(before_pair.len() as int) == before_pair,
        forall|m: int|
            before_pair.len() <= m < cur.len() ==> #[trigger] spec_pair_opp_covered(
                cur,
                pools,
                key,
                q_cur,
                now,
                m,
            ),
        forall|gg: int|
            0 <= gg < q_cur.len() ==> #[trigger] spec_pair_gap_covered(
                cur,
                before_pair.len() as int,
                pools,
                key,
                q_cur,
                now,
                gg,
            ),
        forall|m: int| 0 <= m < before_pair.len() ==> cur[m] == before_pair[m],
{
    let lo = before_pair.len() as int;
    let newm = cur.len() - 1;
    assert(cur[newm] == newopp);
    assert(cur.take(lo) =~= before_pair);
    assert forall|m: int| lo <= m < cur.len() implies #[trigger] spec_pair_opp_covered(
        cur,
        pools,
        key,
        q_cur,
        now,
        m,
    ) by {
        if m < newm {
            assert(spec_pair_opp_covered(before_push, pools, key, q_pre, now, m));
            let gg0 = choose|gg: int|
                0 <= gg < q_pre.len() && spec_opp_realizes_gap(
                    before_push[m],
                    pools,
                    key,
                    #[trigger] q_pre[gg],
                    now,
                );
            assert(cur[m] == before_push[m]);
            assert(q_cur[gg0] == q_pre[gg0]);
            assert(spec_opp_realizes_gap(cur[m], pools, key, q_cur[gg0], now));
        } else {
            assert(q_cur[q_cur.len() - 1] == newgap);
            assert(spec_opp_realizes_gap(cur[m], pools, key, q_cur[q_cur.len() - 1], now));
        }
    }
    assert forall|gg: int| 0 <= gg < q_cur.len() implies #[trigger] spec_pair_gap_covered(
        cur,
        lo,
        pools,
        key,
        q_cur,
        now,
        gg,
    ) by {
        if gg < q_pre.len() {
            assert(spec_pair_gap_covered(before_push, lo, pools, key, q_pre, now, gg));
            let m0 = choose|m: int|
                lo <= m < before_push.len() && spec_opp_realizes_gap(
                    #[trigger] before_push[m],
                    pools,
                    key,
                    q_pre[gg],
                    now,
                );
            assert(cur[m0] == before_push[m0]);
            assert(q_cur[gg] == q_pre[gg]);
            assert(spec_opp_realizes_gap(cur[m0], pools, key, q_cur[gg], now));
        } else {
            assert(q_cur[gg] == newgap);
            assert(spec_opp_realizes_gap(cur[newm], pools, key, q_cur[gg], now));
        }
    }
}

/// Once one pair's opportunities all realize its qualifying gaps and
/// back, the scan-level correspondence extends from the first `k` pairs
/// to the first `k + 1`.
#[verifier::rlimit(100)]
proof fn lemma_pair_cover_to_scan_cover(
    before_pair: Seq<ArbitrageOpportunity>,
    cur: Seq<ArbitrageOpportunity>,
    pools: Seq<Pool>,
    threshold: u128,
    now: int,
    k: int,
)
    requires
        0 <= k < spec_pair_keys(pools).len(),
        cur.take(before_pair.len() as int) == before_pair,
        cur.len() == before_pair.len() + spec_pair_results(
            pools,
            spec_pair_keys(pools)[k],
            threshold,
        ).len(),
        forall|m: int|
            before_pair.len() <= m < cur.len() ==> #[trigger] spec_pair_opp_covered(
                cur,
                pools,
                spec_pair_keys(pools)[k],
                spec_pair_results(pools, spec_pair_keys(pools)[k], threshold),
                now,
                m,
            ),
        forall|gg: int|
            0 <= gg < spec_pair_results(pools, spec_pair_keys(pools)[k], threshold).len()
                ==> #[trigger] spec_pair_gap_covered(
                cur,
                before_pair.len() as int,
                pools,
                spec_pair_keys(pools)[k],
                spec_pair_results(pools, spec_pair_keys(pools)[k], threshold),
                now,
                gg,
            ),
        forall|m: int|
            0 <= m < before_pair.len() ==> #[trigger] spec_opp_sourced(
                before_pair,
                pools,
                threshold,
                now,
                m,
            ),
        forall|kidx: int, g: int|
            0 <= kidx < k && 0 <= g < spec_pair_results(
                pools,
                #[trigger] spec_pair_keys(pools)[kidx],
                threshold,
            ).len() ==> #[trigger] spec_gap_covered(before_pair, pools, threshold, now, kidx, g),
        forall|m: int| 0 <= m < before_pair.len() ==> cur[m] == before_pair[m],
    ensures
        forall|m: int|
            0 <= m < cur.len() ==> #[trigger] spec_opp_sourced(cur, pools, threshold, now, m),
        forall|kidx: int, g: int|
            0 <= kidx < k + 1 && 0 <= g < spec_pair_results(
                pools,
                #[trigger] spec_pair_keys(pools)[kidx],
                threshold,
            ).len() ==> #[trigger] spec_gap_covered(cur, pools, threshold, now, kidx, g),
{
    let lo = before_pair.len() as int;
    let keys = spec_pair_keys(pools);
    let key = keys[k];
    let q = spec_pair_results(pools, key, threshold);
    assert forall|m: int| 0 <= m < cur.len() implies #[trigger] spec_opp_sourced(
        cur,
        pools,
        threshold,
        now,
        m,
    ) by {
        if m < lo {
            assert(spec_opp_sourced(before_pair, pools, threshold, now, m));
            let (k0, g0): (int, int) = choose|kk: int, gg: int|
                #![trigger spec_pair_results(pools, spec_pair_keys(pools)[kk], threshold)[gg]]
                0 <= kk < keys.len() && 0 <= gg < spec_pair_results(
                    pools,
                    spec_pair_keys(pools)[kk],
                    threshold,
                ).len() && spec_opp_realizes_gap(
                    before_pair[m],
                    pools,
                    spec_pair_keys(pools)[kk],
                    spec_pair_results(pools, spec_pair_keys(pools)[kk], threshold)[gg],
                    now,
                );
            assert(cur[m] == before_pair[m]);
            assert(spec_opp_realizes_gap(
                cur[m],
                pools,
                keys[k0],
                spec_pair_results(pools, keys[k0], threshold)[g0],
                now,
            ));
        } else {
            assert(spec_pair_opp_covered(cur, pools, key, q, now, m));
            let g0 = choose|gg: int|
                0 <= gg < q.len() && spec_opp_realizes_gap(
                    cur[m],
                    pools,
                    key,
                    #[trigger] q[gg],
                    now,
                );
            assert(spec_opp_realizes_gap(
                cur[m],
                pools,
                keys[k],
                spec_pair_results(pools, keys[k], threshold)[g0],
                now,
            ));
        }
    }
    assert forall|kidx: int, g: int|
        0 <= kidx < k + 1 && 0 <= g < spec_pair_results(
            pools,
            #[trigger] spec_pair_keys(pools)[kidx],
            threshold,
        ).len() implies #[trigger] spec_gap_covered(cur, pools, threshold, now, kidx, g) by {
        if kidx < k {
            assert(spec_gap_covered(before_pair, pools, threshold, now, kidx, g));
            let m0 = choose|m: int|
                0 <= m < before_pair.len() && spec_opp_realizes_gap(
                    #[trigger] before_pair[m],
                    pools,
                    keys[kidx],
                    spec_pair_results(pools, keys[kidx], threshold)[g],
                    now,
                );
            assert(cur[m0] == before_pair[m0]);
            assert(spec_opp_realizes_gap(
                cur[m0],
                pools,
                keys[kidx],
                spec_pair_results(pools, keys[kidx], threshold)[g],
                now,
            ));
        } else {
            assert(spec_pair_gap_covered(cur, lo, pools, key, q, now, g));
            let m0 = choose|m: int|
                lo <= m < cur.len() && spec_opp_realizes_gap(
                    #[trigger] cur[m],
                    pools,
                    key,
                    q[g],
                    now,
                );
            assert(spec_opp_realizes_gap(
                cur[m0],
                pools,
                keys[kidx],
                spec_pair_results(pools, keys[kidx], threshold)[g],
                now,
            ));
        }
    }
}

} // verus!
