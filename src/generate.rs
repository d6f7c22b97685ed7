use vstd::prelude::*;
use vstd::arithmetic::div_mod::{lemma_div_is_ordered, lemma_div_multiples_vanish, lemma_fundamental_div_mod};
use crate::UNIT;
use crate::model::{Config, Position};

verus! {

/// Lowest target collateral ratio of a generated position, in millionths.
pub const MIN_TARGET_RATIO: u64 = 1_300_000;

/// A keeper competing for liquidations.
#[derive(Clone, Copy, Debug, PartialEq, Eq, Structural)]
pub struct Bidder {
    pub id: usize,
    /// Gas priority in millionths, within `[0, UNIT]`.
    pub gas_priority: u64,
    /// Profit collected during the run, in millionths of a currency unit.
    pub total_profit: u128,
    pub successful_liquidations: usize,
}

/// Whether every draw is a uniform value below `UNIT`.
pub open spec fn draws_ok(d: Seq<u64>) -> bool {
    forall|i: int| 0 <= i < d.len() ==> d[i] < UNIT
}

/// The position built from four draws: collateral in `[1, 10)`, target ratio
/// in `[1.3, 1.8)`, debt `collateral * price / ratio`, age in `[0, 365)` days,
/// volatility in `[0, 1)`.
pub open spec fn position_spec(cfg: Config, id: int, u0: int, u1: int, u2: int, u3: int) -> Position {
    let collateral = UNIT + u0 * 9;
    let ratio = MIN_TARGET_RATIO + u1 / 2;
    Position {
        id: id as usize,
        collateral: collateral as u64,
        debt: (collateral * cfg.reference_price / ratio) as u64,
        age_days: (u2 * 365) as u64,
        volatility: u3 as u64,
    }
}

pub open spec fn bidder_spec(id: int, u: int) -> Bidder {
    Bidder { id: id as usize, gas_priority: u as u64, total_profit: 0, successful_liquidations: 0 }
}

proof fn lemma_ratio_at_least_target(v: int, r: int)
    requires
        0 < r <= v,
    ensures
        v / r > 0,
        v / (v / r) >= r,
{
    lemma_fundamental_div_mod(v, r);
    let d = v / r;
    assert(d >= 1) by {
        lemma_div_is_ordered(r, v, r);
        vstd::arithmetic::div_mod::lemma_div_by_self(r);
    }
    vstd::arithmetic::div_mod::lemma_mod_pos_bound(v, r);
    assert(r * d == d * r) by (nonlinear_arith);
    assert(d * r <= v);
    lemma_div_is_ordered(d * r, v, d);
    lemma_div_multiples_vanish(r, d);
    assert(r * d == d * r) by (nonlinear_arith);
}

/// Builds one position from four uniform draws below `UNIT`. The result is
/// valid, its collateral ratio at the reference price is at least 1.3 and
/// its volatility lies in `[0, 1]`.
pub fn new_position(cfg: &Config, id: usize, u0: u64, u1: u64, u2: u64, u3: u64) -> (r: Position)
    requires
        cfg.valid(),
        u0 < UNIT,
        u1 < UNIT,
        u2 < UNIT,
        u3 < UNIT,
    ensures
        r == position_spec(*cfg, id as int, u0 as int, u1 as int, u2 as int, u3 as int),
        r.valid(),
        r.ratio_spec(cfg.reference_price as int) >= MIN_TARGET_RATIO,
        r.features_spec(cfg.reference_price as int).ratio >= MIN_TARGET_RATIO,
        r.volatility <= UNIT,
{
    let collateral = UNIT + u0 * 9;
    let ratio = MIN_TARGET_RATIO + u1 / 2;
    proof {
        assert(collateral as u128 * cfg.reference_price as u128 <= 10_000_000 * 1_000_000_000_000) by (nonlinear_arith)
            requires collateral <= 10_000_000, cfg.reference_price <= 1_000_000_000_000;
    }
    let v = collateral as u128 * cfg.reference_price as u128;
    proof {
        assert(v <= 10_000_000 * 1_000_000_000_000) by (nonlinear_arith)
            requires v == collateral * cfg.reference_price, collateral <= 10_000_000, cfg.reference_price <= 1_000_000_000_000;
        assert(v >= 1_000_000 * 1_000_000) by (nonlinear_arith)
            requires v == collateral * cfg.reference_price, collateral >= 1_000_000, cfg.reference_price >= 1_000_000;
        assert(v as int / (ratio as int) <= v as int / 1_300_000) by {
            vstd::arithmetic::div_mod::lemma_div_is_ordered_by_denominator(v as int, 1_300_000, ratio as int);
        }
        assert(v as int / 1_300_000 <= 1_000_000_000_000_000) by (nonlinear_arith)
            requires v <= 10_000_000 * 1_000_000_000_000;
        lemma_ratio_at_least_target(v as int, ratio as int);
    }
    let debt = (v / ratio as u128) as u64;
    Position { id, collateral, debt, age_days: u2 * 365, volatility: u3 }
}

/// Builds one bidder from a uniform draw below `UNIT`: its gas priority.
pub fn new_bidder(id: usize, u: u64) -> (r: Bidder)
    requires
        u < UNIT,
    ensures
        r == bidder_spec(id as int, u as int),
{
    Bidder { id, gas_priority: u, total_profit: 0, successful_liquidations: 0 }
}

/// Builds `n` positions from `draws[4 * j .. 4 * j + 4]` for each `j < n`.
pub fn generate_positions(cfg: &Config, n: usize, draws: &Vec<u64>) -> (r: Vec<Position>)
    requires
        cfg.valid(),
        draws@.len() >= 4 * n,
        draws_ok(draws@),
    ensures
        r@.len() == n,
        forall|j: int| 0 <= j < n ==> r@[j] == #[trigger] position_spec(*cfg, j, draws@[4 * j] as int,
            draws@[4 * j + 1] as int, draws@[4 * j + 2] as int, draws@[4 * j + 3] as int),
        forall|j: int| 0 <= j < n ==> (#[trigger] r@[j]).valid() && r@[j].ratio_spec(cfg.reference_price as int)
            >= MIN_TARGET_RATIO && r@[j].volatility <= UNIT,
{
    let len = draws.len();
    let mut r: Vec<Position> = Vec::new();
    let mut j: usize = 0;
    while j < n
        invariant
            cfg.valid(),
            draws@.len() >= 4 * n,
            len == draws@.len(),
            draws_ok(draws@),
            j <= n,
            r@.len() == j,
            forall|k: int| 0 <= k < j ==> r@[k] == #[trigger] position_spec(*cfg, k, draws@[4 * k] as int,
                draws@[4 * k + 1] as int, draws@[4 * k + 2] as int, draws@[4 * k + 3] as int),
            forall|k: int| 0 <= k < j ==> (#[trigger] r@[k]).valid() && r@[k].ratio_spec(cfg.reference_price as int)
                >= MIN_TARGET_RATIO && r@[k].volatility <= UNIT,
        decreases n - j,
    {
        let b = 4 * j;
        let p = new_position(cfg, j, draws[b], draws[b + 1], draws[b + 2], draws[b + 3]);
        r.push(p);
        j = j + 1;
    }
    r
}

/// Builds `n` bidders, bidder `i` from `draws[start + i]`.
pub fn generate_bidders(n: usize, draws: &Vec<u64>, start: usize) -> (r: Vec<Bidder>)
    requires
        draws@.len() >= start + n,
        draws_ok(draws@),
    ensures
        r@.len() == n,
        forall|i: int| 0 <= i < n ==> r@[i] == #[trigger] bidder_spec(i, draws@[start + i] as int),
{
    let len = draws.len();
    let mut r: Vec<Bidder> = Vec::new();
    let mut i: usize = 0;
    while i < n
        invariant
            draws@.len() >= start + n,
            len == draws@.len(),
            draws_ok(draws@),
            i <= n,
            r@.len() == i,
            forall|k: int| 0 <= k < i ==> r@[k] == #[trigger] bidder_spec(k, draws@[start + k] as int),
        decreases n - i,
    {
        r.push(new_bidder(i, draws[start + i]));
        i = i + 1;
    }
    r
}

} // verus!
