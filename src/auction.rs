use vstd::prelude::*;
use crate::UNIT;
use crate::strategy::ObfuscationStrategy;

verus! {

/// Largest profit of one liquidation, in millionths of a currency unit.
pub const MAX_PROFIT: u128 = 1_000_000_000_000_000;

/// Number of bids among the first `n` entries (`None` = no bid).
pub open spec fn count_bids(s: Seq<Option<u64>>, n: int) -> int
    decreases n,
{
    if n <= 0 {
        0
    } else {
        count_bids(s, n - 1) + if s[n - 1] is Some { 1int } else { 0int }
    }
}

pub open spec fn bid_value(b: Option<u64>) -> int {
    match b {
        Some(v) => v as int,
        None => -1,
    }
}

/// Index of the first highest bid among the first `n` entries, or -1.
pub open spec fn top_bid(s: Seq<Option<u64>>, n: int) -> int
    decreases n,
{
    if n <= 0 {
        -1
    } else {
        let b = top_bid(s, n - 1);
        if s[n - 1] is Some && (b < 0 || bid_value(s[n - 1]) > bid_value(s[b])) {
            n - 1
        } else {
            b
        }
    }
}

/// Index of the bid of rank `m` (counting from 0) among the first `n` entries, or -1.
pub open spec fn nth_bid(s: Seq<Option<u64>>, m: int, n: int) -> int
    decreases n,
{
    if n <= 0 {
        -1
    } else {
        let p = nth_bid(s, m, n - 1);
        if p >= 0 {
            p
        } else if s[n - 1] is Some && count_bids(s, n - 1) == m {
            n - 1
        } else {
            -1
        }
    }
}

/// The winning entry: the first highest bid, or for random-winner strategies
/// the bid of rank `u * k / UNIT` where `k` bids were made. The draw `u` is
/// uniform below `UNIT`, so when `k` does not divide `UNIT` the lower ranks
/// are favoured by at most one value in `UNIT` (with `k = 3`, rank 0 gets
/// 333 334 values and the others 333 333).
pub open spec fn winner_spec(st: ObfuscationStrategy, s: Seq<Option<u64>>, u: int) -> int {
    if st.random_winner() {
        nth_bid(s, u * count_bids(s, s.len() as int) / (UNIT as int), s.len() as int)
    } else {
        top_bid(s, s.len() as int)
    }
}

pub proof fn lemma_count_bounds(s: Seq<Option<u64>>, n: int)
    requires
        0 <= n <= s.len(),
    ensures
        0 <= count_bids(s, n) <= n,
    decreases n,
{
    if n > 0 {
        lemma_count_bounds(s, n - 1);
    }
}

proof fn lemma_top_bid(s: Seq<Option<u64>>, n: int)
    requires
        0 <= n <= s.len(),
    ensures
        top_bid(s, n) < n,
        top_bid(s, n) >= 0 ==> s[top_bid(s, n)] is Some,
        (top_bid(s, n) >= 0) == (count_bids(s, n) > 0),
        top_bid(s, n) >= 0 ==> forall|i: int| 0 <= i < n ==> bid_value(#[trigger] s[i]) <= bid_value(
            s[top_bid(s, n)]),
        top_bid(s, n) < 0 ==> forall|i: int| 0 <= i < n ==> #[trigger] s[i] is None,
    decreases n,
{
    if n > 0 {
        lemma_top_bid(s, n - 1);
        lemma_count_bounds(s, n - 1);
        let b = top_bid(s, n - 1);
        let t = top_bid(s, n);
        if t >= 0 {
            assert forall|i: int| 0 <= i < n implies bid_value(#[trigger] s[i]) <= bid_value(s[t]) by {
                if i < n - 1 && b < 0 {
                    assert(s[i] is None);
                }
            }
        }
    }
}

proof fn lemma_nth_bid(s: Seq<Option<u64>>, m: int, n: int)
    requires
        0 <= n <= s.len(),
        0 <= m,
    ensures
        nth_bid(s, m, n) < n,
        nth_bid(s, m, n) >= 0 ==> s[nth_bid(s, m, n)] is Some && count_bids(s, nth_bid(s, m, n)) == m,
        (nth_bid(s, m, n) >= 0) == (m < count_bids(s, n)),
    decreases n,
{
    if n > 0 {
        lemma_nth_bid(s, m, n - 1);
    }
}

/// The bid index chosen for `bids`, given one uniform draw `u < UNIT`.
/// Returns `None` exactly when nobody bid.
pub fn select_winner(st: ObfuscationStrategy, bids: &Vec<Option<u64>>, u: u64) -> (r: Option<usize>)
    requires
        u < UNIT,
    ensures
        r is None <==> count_bids(bids@, bids@.len() as int) == 0,
        r is Some ==> r->0 == winner_spec(st, bids@, u as int),
        r is Some ==> r->0 < bids@.len() && bids@[r->0 as int] is Some,
{
    let n = bids.len();
    let mut k: usize = 0;
    let mut best: Option<usize> = None;
    let mut i: usize = 0;
    while i < n
        invariant
            n == bids@.len(),
            i <= n,
            k == count_bids(bids@, i as int),
            best is None ==> top_bid(bids@, i as int) == -1,
            best is Some ==> best->0 == top_bid(bids@, i as int),
        decreases n - i,
    {
        proof {
            lemma_top_bid(bids@, i as int);
            lemma_count_bounds(bids@, i as int);
        }
        match bids[i] {
            Some(v) => {
                match best {
                    None => {
                        best = Some(i);
                    },
                    Some(b) => {
                        match bids[b] {
                            Some(bv) => {
                                if v > bv {
                                    best = Some(i);
                                }
                            },
                            None => {},
                        }
                    },
                }
                k = k + 1;
            },
            None => {},
        }
        i = i + 1;
    }
    proof {
        lemma_top_bid(bids@, n as int);
        lemma_count_bounds(bids@, n as int);
    }
    if k == 0 {
        return None;
    }
    if !st.uses_random_winner() {
        return best;
    }
    proof {
        assert(u * k <= UNIT * n) by (nonlinear_arith)
            requires u < UNIT, k <= n;
        assert(0 <= (u * k) as int / (UNIT as int) < k) by (nonlinear_arith)
            requires 0 <= u < UNIT, k > 0;
    }
    let m = ((u as u128 * k as u128) / (UNIT as u128)) as usize;
    proof {
        lemma_nth_bid(bids@, m as int, n as int);
    }
    let mut c: usize = 0;
    let mut j: usize = 0;
    while j < n
        invariant
            n == bids@.len(),
            j <= n,
            c == count_bids(bids@, j as int),
            m < count_bids(bids@, n as int),
            nth_bid(bids@, m as int, j as int) == -1,
            m as int == (u as int * count_bids(bids@, n as int)) / (UNIT as int),
            st.random_winner(),
        decreases n - j,
    {
        proof {
            lemma_count_bounds(bids@, j as int);
        }
        if bids[j].is_some() {
            if c == m {
                proof {
                    lemma_nth_bid(bids@, m as int, n as int);
                    assert(nth_bid(bids@, m as int, j as int + 1) == j);
                    lemma_nth_bid_stable(bids@, m as int, j as int + 1, n as int);
                    assert(m == (u * count_bids(bids@, bids@.len() as int)) / (UNIT as int));
                    assert(st.random_winner());
                    assert(winner_spec(st, bids@, u as int) == nth_bid(bids@, m as int, n as int));
                }
                return Some(j);
            }
            c = c + 1;
        }
        j = j + 1;
    }
    proof {
        lemma_nth_bid(bids@, m as int, n as int);
    }
    None
}

proof fn lemma_nth_bid_stable(s: Seq<Option<u64>>, m: int, a: int, n: int)
    requires
        0 <= a <= n <= s.len(),
        nth_bid(s, m, a) >= 0,
    ensures
        nth_bid(s, m, n) == nth_bid(s, m, a),
    decreases n - a,
{
    if n > a {
        lemma_nth_bid_stable(s, m, a, n - 1);
    }
}

/// Share of the winner when `k` bidders bid on a position worth `profit`.
pub open spec fn winner_share(st: ObfuscationStrategy, profit: int, k: int) -> int {
    match st {
        ObfuscationStrategy::FairRAI | ObfuscationStrategy::FairRAI5050 => if k > 1 {
            profit - other_share(st, profit, k) * (k - 1)
        } else {
            profit
        },
        ObfuscationStrategy::KeeperPool => pool_of(profit) / k + pool_of(profit) % k,
        _ => profit,
    }
}

/// The part of the profit that the keeper pool shares out: 70%.
pub open spec fn pool_of(profit: int) -> int {
    profit * 7 / 10
}

/// Share of each bidder other than the winner.
pub open spec fn other_share(st: ObfuscationStrategy, profit: int, k: int) -> int {
    match st {
        ObfuscationStrategy::FairRAI => if k > 1 { (profit * 4 / 10) / (k - 1) } else { 0 },
        ObfuscationStrategy::FairRAI5050 => if k > 1 { (profit * 5 / 10) / (k - 1) } else { 0 },
        ObfuscationStrategy::KeeperPool => pool_of(profit) / k,
        _ => 0,
    }
}

/// What entry `i` receives when entry `w` wins a position worth `profit`.
pub open spec fn increment(st: ObfuscationStrategy, profit: int, s: Seq<Option<u64>>, w: int, i: int) -> int {
    let k = count_bids(s, s.len() as int);
    if s[i] is None {
        0
    } else if i == w {
        winner_share(st, profit, k)
    } else {
        other_share(st, profit, k)
    }
}

/// Sum of the increments of the first `n` entries.
pub open spec fn increments_sum(st: ObfuscationStrategy, profit: int, s: Seq<Option<u64>>, w: int, n: int) -> int
    decreases n,
{
    if n <= 0 {
        0
    } else {
        increments_sum(st, profit, s, w, n - 1) + increment(st, profit, s, w, n - 1)
    }
}

/// Sum of the increments of all entries.
pub open spec fn distributed(st: ObfuscationStrategy, profit: int, s: Seq<Option<u64>>, w: int) -> int {
    increments_sum(st, profit, s, w, s.len() as int)
}

proof fn lemma_increments_sum(st: ObfuscationStrategy, profit: int, s: Seq<Option<u64>>, w: int, n: int)
    requires
        0 <= n <= s.len(),
        0 <= w < s.len(),
        s[w] is Some,
    ensures
        increments_sum(st, profit, s, w, n) == (if w < n {
            winner_share(st, profit, count_bids(s, s.len() as int))
        } else {
            0
        }) + (count_bids(s, n) - if w < n { 1int } else { 0int }) * other_share(
            st,
            profit,
            count_bids(s, s.len() as int),
        ),
    decreases n,
{
    if n > 0 {
        lemma_increments_sum(st, profit, s, w, n - 1);
        let o = other_share(st, profit, count_bids(s, s.len() as int));
        let c = count_bids(s, n - 1);
        let ws = winner_share(st, profit, count_bids(s, s.len() as int));
        let prev = increments_sum(st, profit, s, w, n - 1);
        assert(increments_sum(st, profit, s, w, n) == prev + increment(st, profit, s, w, n - 1));
        if s[n - 1] is None {
            assert(count_bids(s, n) == c);
            assert(increment(st, profit, s, w, n - 1) == 0);
            assert(w != n - 1);
        } else if w == n - 1 {
            assert(count_bids(s, n) == c + 1);
            assert(increment(st, profit, s, w, n - 1) == ws);
            assert(prev == c * o);
            assert((c + 1 - 1) * o == c * o);
        } else {
            assert(count_bids(s, n) == c + 1);
            assert(increment(st, profit, s, w, n - 1) == o);
            if w < n - 1 {
                assert(prev == ws + (c - 1) * o);
                assert((c - 1) * o + o == (c + 1 - 1) * o) by (nonlinear_arith);
            } else {
                assert(prev == c * o);
                assert(c * o + o == (c + 1) * o) by (nonlinear_arith);
            }
        }
    } else {
        assert(count_bids(s, 0) == 0);
    }
}

/// What the winner's and the other bidders' shares add up to.
pub proof fn lemma_distributed(st: ObfuscationStrategy, profit: int, s: Seq<Option<u64>>, w: int)
    requires
        0 <= w < s.len(),
        s[w] is Some,
    ensures
        distributed(st, profit, s, w) == winner_share(st, profit, count_bids(s, s.len() as int))
            + (count_bids(s, s.len() as int) - 1) * other_share(st, profit, count_bids(s, s.len() as int)),
{
    lemma_increments_sum(st, profit, s, w, s.len() as int);
}

/// Keeper pool: whatever the number of bidders, the bidders together receive
/// exactly 70% of the position's profit (rounded down to a millionth); the
/// other 30% goes to no bidder.
pub proof fn keeper_pool_distributes_seventy_percent(profit: nat, s: Seq<Option<u64>>, w: int)
    requires
        0 <= w < s.len(),
        s[w] is Some,
    ensures
        distributed(ObfuscationStrategy::KeeperPool, profit as int, s, w) == profit * 7 / 10,
{
    let st = ObfuscationStrategy::KeeperPool;
    lemma_distributed(st, profit as int, s, w);
    lemma_nth_count_positive(s, w);
    let k = count_bids(s, s.len() as int);
    let pool = pool_of(profit as int);
    vstd::arithmetic::div_mod::lemma_fundamental_div_mod(pool, k);
    assert(pool / k + pool % k + (k - 1) * (pool / k) == k * (pool / k) + pool % k) by (nonlinear_arith);
}

pub proof fn lemma_nth_count_positive(s: Seq<Option<u64>>, w: int)
    requires
        0 <= w < s.len(),
        s[w] is Some,
    ensures
        count_bids(s, s.len() as int) >= 1,
{
    lemma_count_monotone(s, w + 1, s.len() as int);
    lemma_count_bounds(s, w);
}

/// Entries that hold no bid count no bids.
pub proof fn lemma_no_bids(s: Seq<Option<u64>>, n: int)
    requires
        0 <= n <= s.len(),
        forall|i: int| 0 <= i < n ==> #[trigger] s[i] is None,
    ensures
        count_bids(s, n) == 0,
    decreases n,
{
    if n > 0 {
        lemma_no_bids(s, n - 1);
    }
}

proof fn lemma_count_monotone(s: Seq<Option<u64>>, a: int, n: int)
    requires
        0 <= a <= n <= s.len(),
    ensures
        count_bids(s, a) <= count_bids(s, n),
    decreases n - a,
{
    if n > a {
        lemma_count_monotone(s, a, n - 1);
    }
}

/// FairRAI (60/40 and 50/50): the bidders together receive exactly the
/// position's whole profit, whether one or several bid.
pub proof fn fair_split_distributes_all(st: ObfuscationStrategy, profit: nat, s: Seq<Option<u64>>, w: int)
    requires
        st == ObfuscationStrategy::FairRAI || st == ObfuscationStrategy::FairRAI5050,
        0 <= w < s.len(),
        s[w] is Some,
    ensures
        distributed(st, profit as int, s, w) == profit,
{
    lemma_distributed(st, profit as int, s, w);
    lemma_nth_count_positive(s, w);
    let k = count_bids(s, s.len() as int);
    let o = other_share(st, profit as int, k);
    if k > 1 {
        assert(o * (k - 1) == (k - 1) * o) by (nonlinear_arith);
        assert(winner_share(st, profit as int, k) == profit - o * (k - 1));
    } else {
        assert(k == 1);
        assert(winner_share(st, profit as int, k) == profit);
        assert((k - 1) * o == 0) by (nonlinear_arith) requires k == 1;
    }
}

/// Winner-takes-all strategies hand the whole profit to the winner alone.
pub proof fn winner_takes_all_distributes_all(st: ObfuscationStrategy, profit: nat, s: Seq<Option<u64>>, w: int)
    requires
        st == ObfuscationStrategy::Transparent || st == ObfuscationStrategy::NoiseBased || st
            == ObfuscationStrategy::IPFE,
        0 <= w < s.len(),
        s[w] is Some,
    ensures
        distributed(st, profit as int, s, w) == profit,
        forall|i: int| 0 <= i < s.len() && i != w ==> increment(st, profit as int, s, w, i) == 0,
{
    lemma_distributed(st, profit as int, s, w);
}

} // verus!

verus! {

/// The winner's and each other bidder's share of `profit` among `k` bidders.
pub fn shares(st: ObfuscationStrategy, profit: u128, k: usize) -> (r: (u128, u128))
    requires
        k >= 1,
        profit <= MAX_PROFIT,
    ensures
        r.0 == winner_share(st, profit as int, k as int),
        r.1 == other_share(st, profit as int, k as int),
        r.0 + (k - 1) * r.1 <= profit,
        r.0 <= profit,
        r.1 <= profit,
{
    match st {
        ObfuscationStrategy::FairRAI | ObfuscationStrategy::FairRAI5050 => {
            if k > 1 {
                let part: u128 = match st {
                    ObfuscationStrategy::FairRAI => profit * 4 / 10,
                    _ => profit * 5 / 10,
                };
                let o = part / (k - 1) as u128;
                proof {
                    assert(o * (k - 1) <= part) by (nonlinear_arith)
                        requires o == (part as int) / ((k - 1) as int), k > 1, part >= 0;
                    assert(part <= profit);
                    assert(o <= part) by (nonlinear_arith)
                        requires o == (part as int) / ((k - 1) as int), k > 1, part >= 0;
                    assert((k - 1) * o >= 0) by (nonlinear_arith) requires k > 1, o >= 0;
                    assert((k - 1) * o == o * (k - 1)) by (nonlinear_arith);
                }
                (profit - o * (k - 1) as u128, o)
            } else {
                (profit, 0)
            }
        },
        ObfuscationStrategy::KeeperPool => {
            let pool = profit * 7 / 10;
            let o = pool / k as u128;
            proof {
                vstd::arithmetic::div_mod::lemma_fundamental_div_mod(pool as int, k as int);
                vstd::arithmetic::div_mod::lemma_mod_pos_bound(pool as int, k as int);
                assert(o + pool % (k as u128) + (k - 1) * o == k * o + pool % (k as u128)) by (nonlinear_arith);
                assert(k * o == (k as int) * ((pool as int) / (k as int)));
                assert(o <= pool) by (nonlinear_arith)
                    requires o == (pool as int) / (k as int), k >= 1, pool >= 0;
                assert((k - 1) * o >= 0) by (nonlinear_arith) requires k >= 1, o >= 0;
            }
            (o + pool % k as u128, o)
        },
        _ => (profit, 0),
    }
}

/// Every bidder's share of a liquidation lies between 0 and its profit.
pub proof fn lemma_share_bounds(st: ObfuscationStrategy, profit: nat, s: Seq<Option<u64>>, w: int)
    requires
        0 <= w < s.len(),
        s[w] is Some,
    ensures
        forall|i: int| 0 <= i < s.len() ==> 0 <= #[trigger] increment(st, profit as int, s, w, i) <= profit,
{
    lemma_nth_count_positive(s, w);
    let k = count_bids(s, s.len() as int);
    let p = profit as int;
    match st {
        ObfuscationStrategy::FairRAI | ObfuscationStrategy::FairRAI5050 => {
            if k > 1 {
                let part = if st == ObfuscationStrategy::FairRAI { p * 4 / 10 } else { p * 5 / 10 };
                let o = part / (k - 1);
                assert(0 <= o <= part && o * (k - 1) <= part) by (nonlinear_arith)
                    requires o == part / (k - 1), k > 1, part >= 0;
                assert(other_share(st, p, k) == o);
            }
        },
        ObfuscationStrategy::KeeperPool => {
            let pool = pool_of(p);
            vstd::arithmetic::div_mod::lemma_fundamental_div_mod(pool, k);
            vstd::arithmetic::div_mod::lemma_mod_pos_bound(pool, k);
            assert(0 <= pool / k && pool / k + pool % k <= pool) by (nonlinear_arith)
                requires pool == k * (pool / k) + pool % k, k >= 1, pool >= 0, 0 <= pool % k;
        },
        _ => {},
    }
}

/// Bound on a bidder's accumulated profit and on a run's total.
pub const MAX_TOTAL: u128 = 100_000_000_000_000_000_000;

/// Pays out one liquidation of `profit` won by entry `w` of `bids`: each
/// bidder `i` gains `increment(.., i)` and the winner one more success.
pub fn distribute(
    st: ObfuscationStrategy,
    profit: u128,
    bids: &Vec<Option<u64>>,
    w: usize,
    bidders: &mut Vec<crate::generate::Bidder>,
)
    requires
        old(bidders)@.len() == bids@.len(),
        w < bids@.len(),
        bids@[w as int] is Some,
        profit <= MAX_PROFIT,
        forall|i: int| 0 <= i < old(bidders)@.len() ==> #[trigger] old(bidders)@[i].total_profit + MAX_PROFIT
            <= MAX_TOTAL && old(bidders)@[i].successful_liquidations < usize::MAX,
    ensures
        final(bidders)@.len() == old(bidders)@.len(),
        forall|i: int| 0 <= i < final(bidders)@.len() ==> #[trigger] final(bidders)@[i] == (crate::generate::Bidder {
            total_profit: (old(bidders)@[i].total_profit + increment(st, profit as int, bids@, w as int, i)) as u128,
            successful_liquidations: if i == w {
                (old(bidders)@[i].successful_liquidations + 1) as usize
            } else {
                old(bidders)@[i].successful_liquidations
            },
            ..old(bidders)@[i]
        }),
{
    let n = bids.len();
    let mut k: usize = 0;
    let mut i: usize = 0;
    while i < n
        invariant
            n == bids@.len(),
            i <= n,
            k == count_bids(bids@, i as int),
        decreases n - i,
    {
        proof {
            lemma_count_bounds(bids@, i as int);
        }
        if bids[i].is_some() {
            k = k + 1;
        }
        i = i + 1;
    }
    proof {
        lemma_nth_count_positive(bids@, w as int);
    }
    let (ws, os) = shares(st, profit, k);
    proof {
        assert((k - 1) * os >= 0) by (nonlinear_arith) requires k >= 1, os >= 0;
    }
    let mut j: usize = 0;
    while j < n
        invariant
            n == bids@.len(),
            bidders@.len() == n,
            old(bidders)@.len() == n,
            profit <= MAX_PROFIT,
            bids@[w as int] is Some,
            j <= n,
            w < n,
            k == count_bids(bids@, n as int),
            ws == winner_share(st, profit as int, k as int),
            os == other_share(st, profit as int, k as int),
            ws <= profit,
            os <= profit,
            forall|i: int| 0 <= i < n ==> #[trigger] old(bidders)@[i].total_profit + MAX_PROFIT <= MAX_TOTAL
                && old(bidders)@[i].successful_liquidations < usize::MAX,
            forall|i: int| j <= i < n ==> #[trigger] bidders@[i] == old(bidders)@[i],
            forall|i: int| 0 <= i < j ==> #[trigger] bidders@[i] == (crate::generate::Bidder {
                total_profit: (old(bidders)@[i].total_profit + increment(st, profit as int, bids@, w as int, i)) as u128,
                successful_liquidations: if i == w {
                    (old(bidders)@[i].successful_liquidations + 1) as usize
                } else {
                    old(bidders)@[i].successful_liquidations
                },
                ..old(bidders)@[i]
            }),
        decreases n - j,
    {
        let mut b = bidders[j];
        assert(bidders@[j as int] == old(bidders)@[j as int]);
        assert(old(bidders)@[j as int].total_profit + MAX_PROFIT <= MAX_TOTAL);
        assert(increment(st, profit as int, bids@, w as int, j as int) == if bids@[j as int] is None {
            0
        } else if j == w {
            ws as int
        } else {
            os as int
        });
        if bids[j].is_some() {
            if j == w {
                b.total_profit = b.total_profit + ws;
                b.successful_liquidations = b.successful_liquidations + 1;
            } else {
                b.total_profit = b.total_profit + os;
            }
        }
        assert(b == (crate::generate::Bidder {
            total_profit: (old(bidders)@[j as int].total_profit + increment(st, profit as int, bids@, w as int, j as int)) as u128,
            successful_liquidations: if j == w {
                (old(bidders)@[j as int].successful_liquidations + 1) as usize
            } else {
                old(bidders)@[j as int].successful_liquidations
            },
            ..old(bidders)@[j as int]
        }));
        bidders.set(j, b);
        j = j + 1;
    }
}

} // verus!
