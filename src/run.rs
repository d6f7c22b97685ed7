use vstd::prelude::*;
use crate::UNIT;
use crate::auction::{
    count_bids, distribute, distributed, fair_split_distributes_all, increment, increments_sum,
    keeper_pool_distributes_seventy_percent, select_winner, winner_spec,
    winner_takes_all_distributes_all, MAX_PROFIT, MAX_TOTAL,
};
use crate::generate::{
    bidder_spec, draws_ok, generate_bidders, generate_positions, position_spec, Bidder,
};
use crate::metrics::{
    concentration_spec, coverage, coverage_spec, gas_waste_ratio, gas_waste_spec,
    lemma_top_sum_bounded, profit_concentration, seq_sum, top_cohort_spec, top_sum,
};
use crate::model::{Config, Position};
use crate::scoring::{eligible_spec, is_liquidatable, perceive, perceive_spec, priority, priority_spec};
use crate::strategy::ObfuscationStrategy;

verus! {

/// Gas priority above which a bidder counts as a front-runner.
pub const FRONT_RUNNER_GAS: u64 = 800_000;

/// Counters accumulated over the positions of one run.
#[derive(Clone, Copy, Debug, PartialEq, Eq, Structural)]
pub struct RunTally {
    pub successful_liquidations: usize,
    pub failed_attempts: usize,
    pub missed_liquidations: usize,
    /// Positions that are truly eligible.
    pub eligible_positions: usize,
    pub total_profit: u128,
    pub front_runner_profit: u128,
}

/// What one run yields; ratios in millionths.
#[derive(Clone, Copy, Debug, PartialEq, Eq, Structural)]
pub struct RunResult {
    pub strategy: ObfuscationStrategy,
    pub successful_liquidations: usize,
    pub failed_attempts: usize,
    pub missed_liquidations: usize,
    pub total_profit: u128,
    pub front_runner_profit: u128,
    pub profit_concentration: u64,
    pub gas_waste_ratio: u64,
    pub coverage: u64,
}

/// Number of uniform draws one run consumes: four per position, one per
/// bidder, one per (position, bidder) pair and one per position for the winner.
pub open spec fn draws_needed_spec(cfg: Config) -> int {
    5 * cfg.num_positions + cfg.num_bidders + cfg.num_positions * cfg.num_bidders
}

pub open spec fn perception_base(cfg: Config, j: int) -> int {
    4 * cfg.num_positions + cfg.num_bidders + j * cfg.num_bidders
}

pub open spec fn winner_draw(cfg: Config, j: int) -> int {
    4 * cfg.num_positions + cfg.num_bidders + cfg.num_positions * cfg.num_bidders + j
}

pub fn draws_needed(cfg: &Config) -> (r: usize)
    requires
        cfg.valid(),
    ensures
        r == draws_needed_spec(*cfg),
{
    proof {
        assert(cfg.num_positions * cfg.num_bidders <= 10_000 * 1_000) by (nonlinear_arith)
            requires cfg.num_positions <= 10_000, cfg.num_bidders <= 1_000;
    }
    5 * cfg.num_positions + cfg.num_bidders + cfg.num_positions * cfg.num_bidders
}

pub open spec fn position_at(cfg: Config, d: Seq<u64>, j: int) -> Position {
    position_spec(cfg, j, d[4 * j] as int, d[4 * j + 1] as int, d[4 * j + 2] as int, d[4 * j + 3] as int)
}

pub open spec fn initial_bidders(cfg: Config, d: Seq<u64>) -> Seq<Bidder> {
    Seq::new(cfg.num_bidders as nat, |i: int| bidder_spec(i, d[4 * cfg.num_positions + i] as int))
}

/// The bids on a position: entry `i` holds bidder `i`'s priority if it
/// perceives the position as eligible.
pub open spec fn bids_spec(
    cfg: Config,
    st: ObfuscationStrategy,
    p: Position,
    price: int,
    bidders: Seq<Bidder>,
    d: Seq<u64>,
    base: int,
) -> Seq<Option<u64>> {
    Seq::new(
        bidders.len(),
        |i: int|
            {
                let seen = perceive_spec(cfg, st, p, price, d[base + i] as int);
                if seen.0 {
                    Some(priority_spec(bidders[i].gas_priority as int, seen.1) as u64)
                } else {
                    None
                }
            },
    )
}

pub open spec fn empty_tally() -> RunTally {
    RunTally {
        successful_liquidations: 0,
        failed_attempts: 0,
        missed_liquidations: 0,
        eligible_positions: 0,
        total_profit: 0,
        front_runner_profit: 0,
    }
}

/// Bidders after a liquidation of `profit` won by `w`.
pub open spec fn paid_bidders(
    st: ObfuscationStrategy,
    profit: int,
    bids: Seq<Option<u64>>,
    w: int,
    bs: Seq<Bidder>,
) -> Seq<Bidder> {
    Seq::new(
        bs.len(),
        |i: int|
            Bidder {
                total_profit: (bs[i].total_profit + increment(st, profit, bids, w, i)) as u128,
                successful_liquidations: if i == w {
                    (bs[i].successful_liquidations + 1) as usize
                } else {
                    bs[i].successful_liquidations
                },
                ..bs[i]
            },
    )
}

/// The auction on position `j`, applied to the tally and bidders before it.
pub open spec fn step(
    cfg: Config,
    st: ObfuscationStrategy,
    d: Seq<u64>,
    j: int,
    t: RunTally,
    bs: Seq<Bidder>,
) -> (RunTally, Seq<Bidder>) {
    let p = position_at(cfg, d, j);
    let price = cfg.shocked_price_spec();
    let bids = bids_spec(cfg, st, p, price, bs, d, perception_base(cfg, j));
    let elig = eligible_spec(cfg, p, price);
    let t1 = RunTally {
        eligible_positions: (t.eligible_positions + if elig { 1int } else { 0int }) as usize,
        ..t
    };
    if count_bids(bids, bids.len() as int) == 0 {
        (RunTally {
            missed_liquidations: (t1.missed_liquidations + if elig { 1int } else { 0int }) as usize,
            ..t1
        }, bs)
    } else if !elig {
        (RunTally { failed_attempts: (t1.failed_attempts + 1) as usize, ..t1 }, bs)
    } else {
        let w = winner_spec(st, bids, d[winner_draw(cfg, j)] as int);
        let profit = p.profit_spec(price, cfg.gas_cost as int, cfg.penalty_rate as int);
        (RunTally {
            successful_liquidations: (t1.successful_liquidations + 1) as usize,
            total_profit: (t1.total_profit + profit) as u128,
            front_runner_profit: (t1.front_runner_profit + if bs[w].gas_priority > FRONT_RUNNER_GAS {
                profit
            } else {
                0
            }) as u128,
            ..t1
        }, paid_bidders(st, profit, bids, w, bs))
    }
}

/// Tally and bidders after the auctions on the first `j` positions.
pub open spec fn state_after(cfg: Config, st: ObfuscationStrategy, d: Seq<u64>, j: int) -> (RunTally, Seq<Bidder>)
    decreases j,
{
    if j <= 0 {
        (empty_tally(), initial_bidders(cfg, d))
    } else {
        let prev = state_after(cfg, st, d, j - 1);
        step(cfg, st, d, j - 1, prev.0, prev.1)
    }
}

pub open spec fn profits_of(bs: Seq<Bidder>) -> Seq<u128> {
    Seq::new(bs.len(), |i: int| bs[i].total_profit)
}

/// Whether position `j` draws at least one bid from bidders `bs`.
pub open spec fn contested(cfg: Config, st: ObfuscationStrategy, d: Seq<u64>, j: int, bs: Seq<Bidder>) -> bool {
    let bids = bids_spec(cfg, st, position_at(cfg, d, j), cfg.shocked_price_spec(), bs, d, perception_base(cfg, j));
    count_bids(bids, bids.len() as int) > 0
}

/// Number of positions among the first `j` that draw at least one bid.
pub open spec fn contested_positions(cfg: Config, st: ObfuscationStrategy, d: Seq<u64>, j: int) -> int
    decreases j,
{
    if j <= 0 {
        0
    } else {
        contested_positions(cfg, st, d, j - 1) + if contested(cfg, st, d, j - 1, state_after(cfg, st, d, j - 1).1) {
            1int
        } else {
            0int
        }
    }
}

/// Number of truly eligible positions in a run.
pub open spec fn eligible_count(cfg: Config, st: ObfuscationStrategy, d: Seq<u64>) -> int {
    state_after(cfg, st, d, cfg.num_positions as int).0.eligible_positions as int
}

/// The outcome of a whole run, as a function of its draws.
pub open spec fn run_result_spec(cfg: Config, st: ObfuscationStrategy, d: Seq<u64>) -> RunResult {
    let s = state_after(cfg, st, d, cfg.num_positions as int);
    let t = s.0;
    RunResult {
        strategy: st,
        successful_liquidations: t.successful_liquidations,
        failed_attempts: t.failed_attempts,
        missed_liquidations: t.missed_liquidations,
        total_profit: t.total_profit,
        front_runner_profit: t.front_runner_profit,
        profit_concentration: concentration_spec(profits_of(s.1), t.total_profit as int) as u64,
        gas_waste_ratio: gas_waste_spec(t.failed_attempts as int, t.successful_liquidations as int) as u64,
        coverage: coverage_spec(t.successful_liquidations as int, t.eligible_positions as int) as u64,
    }
}

} // verus!

verus! {

/// Every bidder's perception of position `p`, as bids; bidder `i` reads
/// `draws[base + i]`.
pub fn collect_bids(
    cfg: &Config,
    st: ObfuscationStrategy,
    p: &Position,
    price: u64,
    bidders: &Vec<Bidder>,
    draws: &Vec<u64>,
    base: usize,
) -> (r: Vec<Option<u64>>)
    requires
        cfg.valid(),
        p.valid(),
        crate::model::price_ok(price as int),
        draws_ok(draws@),
        base + bidders@.len() <= draws@.len(),
        forall|i: int| 0 <= i < bidders@.len() ==> #[trigger] bidders@[i].gas_priority <= UNIT,
    ensures
        r@ == bids_spec(*cfg, st, *p, price as int, bidders@, draws@, base as int),
{
    let n = bidders.len();
    let len = draws.len();
    let mut r: Vec<Option<u64>> = Vec::new();
    let mut i: usize = 0;
    while i < n
        invariant
            n == bidders@.len(),
            i <= n,
            cfg.valid(),
            p.valid(),
            crate::model::price_ok(price as int),
            draws_ok(draws@),
            base + n <= draws@.len(),
            len == draws@.len(),
            forall|k: int| 0 <= k < n ==> #[trigger] bidders@[k].gas_priority <= UNIT,
            r@.len() == i,
            forall|k: int| 0 <= k < i ==> #[trigger] r@[k] == bids_spec(*cfg, st, *p, price as int, bidders@, draws@, base as int)[k],
        decreases n - i,
    {
        let u = draws[base + i];
        let seen = perceive(cfg, st, p, price, u);
        if seen.0 {
            r.push(Some(priority(bidders[i].gas_priority, seen.1)));
        } else {
            r.push(None);
        }
        i = i + 1;
    }
    assert(r@ =~= bids_spec(*cfg, st, *p, price as int, bidders@, draws@, base as int));
    r
}

proof fn lemma_sum_paid(
    a: Seq<u128>,
    b: Seq<u128>,
    st: ObfuscationStrategy,
    profit: int,
    s: Seq<Option<u64>>,
    w: int,
)
    requires
        a.len() == b.len(),
        b.len() <= s.len(),
        forall|i: int| 0 <= i < a.len() ==> #[trigger] b[i] == a[i] + increment(st, profit, s, w, i),
    ensures
        seq_sum(b) == seq_sum(a) + increments_sum(st, profit, s, w, a.len() as int),
    decreases a.len(),
{
    if a.len() > 0 {
        let n = a.len() - 1;
        assert forall|i: int| 0 <= i < n implies #[trigger] b.drop_last()[i] == a.drop_last()[i] + increment(st, profit, s, w, i) by {
            assert(b[i] == a[i] + increment(st, profit, s, w, i));
        }
        lemma_sum_paid(a.drop_last(), b.drop_last(), st, profit, s, w);
        assert(b.last() == a.last() + increment(st, profit, s, w, n as int));
    }
}

/// What the bidders together receive of one liquidation, by strategy.
proof fn lemma_distributed_by_strategy(st: ObfuscationStrategy, profit: nat, s: Seq<Option<u64>>, w: int)
    requires
        0 <= w < s.len(),
        s[w] is Some,
    ensures
        distributed(st, profit as int, s, w) <= profit,
        st == ObfuscationStrategy::KeeperPool ==> distributed(st, profit as int, s, w) == profit * 7 / 10,
        st != ObfuscationStrategy::KeeperPool ==> distributed(st, profit as int, s, w) == profit,
{
    match st {
        ObfuscationStrategy::KeeperPool => {
            keeper_pool_distributes_seventy_percent(profit, s, w);
        },
        ObfuscationStrategy::FairRAI | ObfuscationStrategy::FairRAI5050 => {
            fair_split_distributes_all(st, profit, s, w);
        },
        _ => {
            winner_takes_all_distributes_all(st, profit, s, w);
        },
    }
}

/// Plays one run on `draws`: generates positions and bidders, applies the
/// price shock, and auctions every position in turn. The result is
/// `state_after` all positions: a function of the configuration, the
/// strategy and the draws alone.
pub fn play(cfg: &Config, st: ObfuscationStrategy, draws: &Vec<u64>) -> (r: (RunTally, Vec<Bidder>))
    requires
        cfg.valid(),
        draws@.len() == draws_needed_spec(*cfg),
        draws_ok(draws@),
    ensures
        (r.0, r.1@) == state_after(*cfg, st, draws@, cfg.num_positions as int),
        r.0.successful_liquidations + r.0.missed_liquidations <= r.0.eligible_positions,
        r.0.failed_attempts + r.0.successful_liquidations + r.0.missed_liquidations <= cfg.num_positions,
        r.0.front_runner_profit <= r.0.total_profit,
        r.0.total_profit <= cfg.num_positions * MAX_PROFIT,
        seq_sum(profits_of(r.1@)) <= r.0.total_profit,
        st == ObfuscationStrategy::KeeperPool ==> 10 * seq_sum(profits_of(r.1@)) <= 7 * r.0.total_profit,
        st != ObfuscationStrategy::KeeperPool ==> seq_sum(profits_of(r.1@)) == r.0.total_profit,
        r.0.failed_attempts + r.0.successful_liquidations == contested_positions(*cfg, st, draws@, cfg.num_positions as int),
        st == ObfuscationStrategy::Transparent ==> r.0.missed_liquidations == 0 && r.0.failed_attempts == 0
            && r.0.successful_liquidations == r.0.eligible_positions,
{
    let n = cfg.num_positions;
    let k = cfg.num_bidders;
    let positions = generate_positions(cfg, n, draws);
    let mut bidders = generate_bidders(k, draws, 4 * n);
    let price = cfg.shocked_price();
    assert(bidders@ =~= initial_bidders(*cfg, draws@));
    let mut tally = RunTally {
        successful_liquidations: 0,
        failed_attempts: 0,
        missed_liquidations: 0,
        eligible_positions: 0,
        total_profit: 0,
        front_runner_profit: 0,
    };
    proof {
        assert(profits_of(bidders@) =~= Seq::new(k as nat, |i: int| 0u128));
        lemma_zero_sum(profits_of(bidders@));
    }
    let mut j: usize = 0;
    while j < n
        invariant
            cfg.valid(),
            n == cfg.num_positions,
            k == cfg.num_bidders,
            draws@.len() == draws_needed_spec(*cfg),
            draws_ok(draws@),
            price == cfg.shocked_price_spec(),
            crate::model::price_ok(price as int),
            positions@.len() == n,
            forall|q: int| 0 <= q < n ==> #[trigger] positions@[q] == position_at(*cfg, draws@, q),
            forall|q: int| 0 <= q < n ==> (#[trigger] positions@[q]).valid(),
            j <= n,
            (tally, bidders@) == state_after(*cfg, st, draws@, j as int),
            bidders@.len() == k,
            forall|i: int| 0 <= i < cfg.num_bidders ==> #[trigger] bidders@[i].gas_priority < UNIT,
            forall|i: int| 0 <= i < cfg.num_bidders ==> #[trigger] bidders@[i].total_profit <= tally.total_profit,
            forall|i: int| 0 <= i < cfg.num_bidders ==> #[trigger] bidders@[i].successful_liquidations <= j,
            tally.successful_liquidations + tally.failed_attempts + tally.missed_liquidations <= j,
            tally.eligible_positions <= j,
            tally.successful_liquidations + tally.missed_liquidations <= tally.eligible_positions,
            tally.total_profit <= j * MAX_PROFIT,
            tally.front_runner_profit <= tally.total_profit,
            seq_sum(profits_of(bidders@)) <= tally.total_profit,
            st == ObfuscationStrategy::KeeperPool ==> 10 * seq_sum(profits_of(bidders@)) <= 7 * tally.total_profit,
            st != ObfuscationStrategy::KeeperPool ==> seq_sum(profits_of(bidders@)) == tally.total_profit,
            st == ObfuscationStrategy::Transparent ==> tally.missed_liquidations == 0 && tally.failed_attempts == 0
                && tally.successful_liquidations == tally.eligible_positions,
            tally.failed_attempts + tally.successful_liquidations == contested_positions(*cfg, st, draws@, j as int),
        decreases n - j,
    {
        let p = positions[j];
        let ghost before = bidders@;
        resolve_position(cfg, st, draws, price, &p, j, &mut tally, &mut bidders);
        assert(contested_positions(*cfg, st, draws@, j as int + 1) == contested_positions(*cfg, st, draws@, j as int)
            + if contested(*cfg, st, draws@, j as int, before) { 1int } else { 0int });
        proof {
            assert forall|i: int| 0 <= i < cfg.num_bidders implies #[trigger] bidders@[i].successful_liquidations
                <= j + 1 by {
                assert(bidders@[i].total_profit <= tally.total_profit);
            }
        }
        j = j + 1;
    }
    (tally, bidders)
}

proof fn lemma_zero_sum(s: Seq<u128>)
    requires
        forall|i: int| 0 <= i < s.len() ==> s[i] == 0,
    ensures
        seq_sum(s) == 0,
    decreases s.len(),
{
    if s.len() > 0 {
        lemma_zero_sum(s.drop_last());
    }
}

} // verus!

verus! {

/// Auctions position `j` (which is `p`) at `price`: gathers the bids, picks
/// the winner, and records a miss, a failed attempt or a liquidation whose
/// profit is shared out. The new tally and bidders are `step` of the old.
pub fn resolve_position(
    cfg: &Config,
    st: ObfuscationStrategy,
    draws: &Vec<u64>,
    price: u64,
    p: &Position,
    j: usize,
    tally: &mut RunTally,
    bidders: &mut Vec<Bidder>,
)
    requires
        cfg.valid(),
        draws@.len() == draws_needed_spec(*cfg),
        draws_ok(draws@),
        price == cfg.shocked_price_spec(),
        crate::model::price_ok(price as int),
        j < cfg.num_positions,
        *p == position_at(*cfg, draws@, j as int),
        p.valid(),
        old(bidders)@.len() == cfg.num_bidders,
        forall|i: int| 0 <= i < cfg.num_bidders ==> #[trigger] old(bidders)@[i].gas_priority < UNIT,
        forall|i: int| 0 <= i < cfg.num_bidders ==> #[trigger] old(bidders)@[i].total_profit <= old(tally).total_profit
            && old(bidders)@[i].successful_liquidations <= j,
        old(tally).successful_liquidations + old(tally).failed_attempts + old(tally).missed_liquidations <= j,
        old(tally).eligible_positions <= j,
        old(tally).successful_liquidations + old(tally).missed_liquidations <= old(tally).eligible_positions,
        old(tally).total_profit <= j * MAX_PROFIT,
        old(tally).front_runner_profit <= old(tally).total_profit,
        seq_sum(profits_of(old(bidders)@)) <= old(tally).total_profit,
        st == ObfuscationStrategy::KeeperPool ==> 10 * seq_sum(profits_of(old(bidders)@)) <= 7 * old(tally).total_profit,
        st != ObfuscationStrategy::KeeperPool ==> seq_sum(profits_of(old(bidders)@)) == old(tally).total_profit,
        st == ObfuscationStrategy::Transparent ==> old(tally).missed_liquidations == 0 && old(tally).failed_attempts == 0
            && old(tally).successful_liquidations == old(tally).eligible_positions,
    ensures
        (*final(tally), final(bidders)@) == step(*cfg, st, draws@, j as int, *old(tally), old(bidders)@),
        final(bidders)@.len() == cfg.num_bidders,
        forall|i: int| 0 <= i < cfg.num_bidders ==> #[trigger] final(bidders)@[i].gas_priority < UNIT,
        forall|i: int| 0 <= i < cfg.num_bidders ==> #[trigger] final(bidders)@[i].total_profit <= final(tally).total_profit
            && final(bidders)@[i].successful_liquidations <= j + 1,
        final(tally).successful_liquidations + final(tally).failed_attempts + final(tally).missed_liquidations <= j + 1,
        final(tally).eligible_positions <= j + 1,
        final(tally).successful_liquidations + final(tally).missed_liquidations <= final(tally).eligible_positions,
        final(tally).total_profit <= (j + 1) * MAX_PROFIT,
        final(tally).front_runner_profit <= final(tally).total_profit,
        seq_sum(profits_of(final(bidders)@)) <= final(tally).total_profit,
        st == ObfuscationStrategy::KeeperPool ==> 10 * seq_sum(profits_of(final(bidders)@)) <= 7 * final(tally).total_profit,
        st != ObfuscationStrategy::KeeperPool ==> seq_sum(profits_of(final(bidders)@)) == final(tally).total_profit,
        final(tally).failed_attempts + final(tally).successful_liquidations == old(tally).failed_attempts
            + old(tally).successful_liquidations + if contested(*cfg, st, draws@, j as int, old(bidders)@) {
            1int
        } else {
            0int
        },
        st == ObfuscationStrategy::Transparent ==> final(tally).missed_liquidations == 0 && final(tally).failed_attempts == 0
            && final(tally).successful_liquidations == final(tally).eligible_positions,
{
    let ghost old_tally = *tally;
    let ghost old_bidders = bidders@;
    let n = cfg.num_positions;
    let k = cfg.num_bidders;
    proof {
        assert(n * k <= 10_000 * 1_000) by (nonlinear_arith)
            requires n <= 10_000, k <= 1_000;
        assert(j * k + k <= n * k) by (nonlinear_arith) requires j < n, k >= 0;
    }
    let base = 4 * n + k + j * k;
    let bids = collect_bids(cfg, st, p, price, bidders, draws, base);
    let elig = is_liquidatable(cfg, p, price);
    if elig {
        tally.eligible_positions = tally.eligible_positions + 1;
    }
    assert(base == perception_base(*cfg, j as int));
    assert(contested(*cfg, st, draws@, j as int, old_bidders) == (count_bids(bids@, bids@.len() as int) > 0));
    proof {
        crate::auction::lemma_count_bounds(bids@, bids@.len() as int);
        if st == ObfuscationStrategy::Transparent {
            assert forall|i: int| 0 <= i < bids@.len() implies (#[trigger] bids@[i] is Some) == elig by {}
            if elig {
                crate::auction::lemma_nth_count_positive(bids@, 0);
            } else {
                crate::auction::lemma_no_bids(bids@, bids@.len() as int);
            }
        }
    }
    let wd = draws[4 * n + k + n * k + j];
    match select_winner(st, &bids, wd) {
        None => {
            if elig {
                tally.missed_liquidations = tally.missed_liquidations + 1;
            }
        },
        Some(w) => {
            if !elig {
                tally.failed_attempts = tally.failed_attempts + 1;
            } else {
                let profit = p.liquidation_profit(price, cfg.gas_cost, cfg.penalty_rate);
                let front = bidders[w].gas_priority > FRONT_RUNNER_GAS;
                proof {
                    assert forall|i: int| 0 <= i < bidders@.len() implies #[trigger] bidders@[i].total_profit
                        + MAX_PROFIT <= MAX_TOTAL && bidders@[i].successful_liquidations < usize::MAX by {
                        assert(bidders@[i].total_profit <= tally.total_profit);
                    }
                    crate::auction::lemma_share_bounds(st, profit as nat, bids@, w as int);
                }
                distribute(st, profit, &bids, w, bidders);
                proof {
                    let paid = paid_bidders(st, profit as int, bids@, w as int, old_bidders);
                    assert(bidders@ =~= paid);
                    let a = profits_of(old_bidders);
                    let b = profits_of(bidders@);
                    assert forall|i: int| 0 <= i < a.len() implies #[trigger] b[i] == a[i] + increment(
                        st,
                        profit as int,
                        bids@,
                        w as int,
                        i,
                    ) by {
                        assert(0 <= increment(st, profit as int, bids@, w as int, i) <= profit);
                    }
                    lemma_sum_paid(a, b, st, profit as int, bids@, w as int);
                    lemma_distributed_by_strategy(st, profit as nat, bids@, w as int);
                    assert(10 * (profit as int * 7 / 10) <= 7 * profit) by (nonlinear_arith);
                }
                tally.successful_liquidations = tally.successful_liquidations + 1;
                tally.total_profit = tally.total_profit + profit;
                if front {
                    tally.front_runner_profit = tally.front_runner_profit + profit;
                }
                proof {
                    let paid = paid_bidders(st, profit as int, bids@, w as int, old_bidders);
                    assert forall|i: int| 0 <= i < cfg.num_bidders implies #[trigger] bidders@[i].total_profit
                        <= tally.total_profit && bidders@[i].successful_liquidations <= j + 1 by {
                        assert(bidders@[i] == paid[i]);
                        assert(old_bidders[i].total_profit <= old_tally.total_profit);
                        assert(0 <= increment(st, profit as int, bids@, w as int, i) <= profit);
                    }
                }
            }
        },
    }
}

} // verus!

verus! {

impl RunResult {
    /// The ranges every result of `simulate_run` lies in.
    pub open spec fn valid(self) -> bool {
        &&& self.successful_liquidations + self.failed_attempts + self.missed_liquidations
            <= crate::model::MAX_POSITIONS
        &&& self.front_runner_profit <= self.total_profit <= MAX_TOTAL
        &&& self.profit_concentration <= UNIT
        &&& self.gas_waste_ratio <= UNIT
        &&& self.coverage <= UNIT
    }
}

/// Profits of the bidders, in bidder order.
pub fn bidder_profits(bidders: &Vec<Bidder>) -> (r: Vec<u128>)
    ensures
        r@ == profits_of(bidders@),
{
    let mut r: Vec<u128> = Vec::new();
    let mut i: usize = 0;
    while i < bidders.len()
        invariant
            i <= bidders@.len(),
            r@ == profits_of(bidders@).take(i as int),
        decreases bidders@.len() - i,
    {
        r.push(bidders[i].total_profit);
        i = i + 1;
        assert(r@ =~= profits_of(bidders@).take(i as int));
    }
    assert(r@ =~= profits_of(bidders@));
    r
}

/// One run on `draws` with its statistics. The result is
/// `run_result_spec(cfg, st, draws)`, so runs on equal draws are equal;
/// profit concentration, gas-waste ratio and coverage lie in `[0, 1]`.
pub fn simulate_run(cfg: &Config, st: ObfuscationStrategy, draws: &Vec<u64>) -> (r: RunResult)
    requires
        cfg.valid(),
        draws@.len() == draws_needed_spec(*cfg),
        draws_ok(draws@),
    ensures
        r == run_result_spec(*cfg, st, draws@),
        r.valid(),
        0 <= r.profit_concentration <= UNIT,
        0 <= r.gas_waste_ratio <= UNIT,
        0 <= r.coverage <= UNIT,
        eligible_count(*cfg, st, draws@) == 0 ==> r.coverage == 0 && r.missed_liquidations == 0
            && r.successful_liquidations == 0 && r.gas_waste_ratio == gas_waste_spec(r.failed_attempts as int, 0),
        r.failed_attempts + r.successful_liquidations == contested_positions(*cfg, st, draws@, cfg.num_positions as int),
        eligible_count(*cfg, st, draws@) == 0 ==> r.failed_attempts == contested_positions(*cfg, st, draws@, cfg.num_positions as int),
        st == ObfuscationStrategy::Transparent ==> r.missed_liquidations == 0 && r.failed_attempts == 0
            && r.gas_waste_ratio == 0 && r.successful_liquidations == eligible_count(*cfg, st, draws@),
        st == ObfuscationStrategy::KeeperPool ==> r.profit_concentration <= 700_000,
        st == ObfuscationStrategy::KeeperPool ==> 10 * seq_sum(
            profits_of(state_after(*cfg, st, draws@, cfg.num_positions as int).1),
        ) <= 7 * r.total_profit,
        st != ObfuscationStrategy::KeeperPool ==> seq_sum(
            profits_of(state_after(*cfg, st, draws@, cfg.num_positions as int).1),
        ) == r.total_profit,
{
    let (t, bidders) = play(cfg, st, draws);
    let profits = bidder_profits(&bidders);
    let concentration = profit_concentration(&profits, t.total_profit);
    proof {
        let top = top_sum(profits@, top_cohort_spec(profits@.len() as int) as nat);
        lemma_top_sum_bounded(profits@, top_cohort_spec(profits@.len() as int) as nat);
        if st == ObfuscationStrategy::KeeperPool && t.total_profit > 0 {
            let tot = t.total_profit as int;
            assert(top * UNIT / tot <= 700_000) by (nonlinear_arith)
                requires 10 * top <= 7 * tot, tot > 0, top >= 0;
        }
    }
    let waste = gas_waste_ratio(t.failed_attempts, t.successful_liquidations);
    let cov = coverage(t.successful_liquidations, t.eligible_positions);
    RunResult {
        strategy: st,
        successful_liquidations: t.successful_liquidations,
        failed_attempts: t.failed_attempts,
        missed_liquidations: t.missed_liquidations,
        total_profit: t.total_profit,
        front_runner_profit: t.front_runner_profit,
        profit_concentration: concentration,
        gas_waste_ratio: waste,
        coverage: cov,
    }
}

} // verus!
