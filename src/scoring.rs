use vstd::prelude::*;
use crate::UNIT;
use crate::model::{Config, Features, Position, Weights, price_ok, MAX_WEIGHT};
use crate::strategy::ObfuscationStrategy;

verus! {

/// Collateral ratio below which bidders without the formula try a position.
pub const COARSE_RATIO: u128 = 1_600_000;

/// `sum_i feature_i * weight_i`, in millionths squared.
pub open spec fn weighted_sum(f: Features, w: Weights) -> int {
    f.ratio * w.ratio + f.volatility * w.volatility + f.utilization * w.utilization
        + f.age * w.age + f.size * w.size
}

/// Ground truth: the score `weighted_sum / UNIT` lies below the threshold.
pub open spec fn eligible_spec(cfg: Config, p: Position, price: int) -> bool {
    weighted_sum(p.features_spec(price), cfg.weights) < cfg.threshold * UNIT
}

/// Bound on the magnitude of a weighted sum of valid features.
pub open spec fn sum_bound() -> int {
    5 * (2_000_000_000_000_000_000_000) * MAX_WEIGHT
}

proof fn lemma_term_bound(f: u128, w: i64)
    requires
        f <= 2_000_000_000_000_000_000_000,
        -MAX_WEIGHT <= w <= MAX_WEIGHT,
    ensures
        -(2_000_000_000_000_000_000_000) * MAX_WEIGHT <= f * w
            <= (2_000_000_000_000_000_000_000) * MAX_WEIGHT,
{
    assert(-(2_000_000_000_000_000_000_000) * MAX_WEIGHT <= f * w
        <= (2_000_000_000_000_000_000_000) * MAX_WEIGHT) by (nonlinear_arith)
        requires
            0 <= f <= 2_000_000_000_000_000_000_000,
            -MAX_WEIGHT <= w <= MAX_WEIGHT,
    ;
}

/// The linear score of a position before division by `UNIT`.
pub fn score_sum(cfg: &Config, p: &Position, price: u64) -> (r: i128)
    requires
        cfg.valid(),
        p.valid(),
        price_ok(price as int),
    ensures
        r == weighted_sum(p.features_spec(price as int), cfg.weights),
        -sum_bound() <= r <= sum_bound(),
{
    let f = p.features(price);
    let w = cfg.weights;
    proof {
        lemma_term_bound(f.ratio, w.ratio);
        lemma_term_bound(f.volatility, w.volatility);
        lemma_term_bound(f.utilization, w.utilization);
        lemma_term_bound(f.age, w.age);
        lemma_term_bound(f.size, w.size);
    }
    (f.ratio as i128) * (w.ratio as i128) + (f.volatility as i128) * (w.volatility as i128)
        + (f.utilization as i128) * (w.utilization as i128) + (f.age as i128) * (w.age as i128)
        + (f.size as i128) * (w.size as i128)
}

/// Whether a position is truly eligible for liquidation at `price`.
pub fn is_liquidatable(cfg: &Config, p: &Position, price: u64) -> (r: bool)
    requires
        cfg.valid(),
        p.valid(),
        price_ok(price as int),
    ensures
        r == eligible_spec(*cfg, *p, price as int),
{
    score_sum(cfg, p, price) < (cfg.threshold as i128) * (UNIT as i128)
}

/// What a bidder believes of a position, given one uniform draw `u < UNIT`:
/// whether it is eligible, and the confidence in millionths.
pub open spec fn perceive_spec(
    cfg: Config,
    s: ObfuscationStrategy,
    p: Position,
    price: int,
    u: int,
) -> (bool, int) {
    match s {
        ObfuscationStrategy::Transparent => (eligible_spec(cfg, p, price), UNIT as int),
        ObfuscationStrategy::NoiseBased => (
            weighted_sum(p.features_spec(price), cfg.weights) * UNIT < cfg.threshold * (UNIT * UNIT
                + (2 * u - UNIT) * cfg.noise_level),
            UNIT - cfg.noise_level,
        ),
        ObfuscationStrategy::IPFE => (
            p.ratio_spec(price) < COARSE_RATIO,
            200_000 + u * 4 / 10,
        ),
        _ => (p.ratio_spec(price) < COARSE_RATIO, u),
    }
}

/// Perception of one bidder for one position under strategy `s`.
pub fn perceive(cfg: &Config, s: ObfuscationStrategy, p: &Position, price: u64, u: u64) -> (r: (
    bool,
    u64,
))
    requires
        cfg.valid(),
        p.valid(),
        price_ok(price as int),
        u < UNIT,
    ensures
        r.0 == perceive_spec(*cfg, s, *p, price as int, u as int).0,
        r.1 == perceive_spec(*cfg, s, *p, price as int, u as int).1,
        r.1 <= UNIT,
{
    match s {
        ObfuscationStrategy::Transparent => (is_liquidatable(cfg, p, price), UNIT),
        ObfuscationStrategy::NoiseBased => {
            let ws = score_sum(cfg, p, price);
            let t = cfg.threshold as i128;
            let n = cfg.noise_level as i128;
            let m = 2 * (u as i128) - (UNIT as i128);
            proof {
                assert(-1_000_000_000_000 <= m * n <= 1_000_000_000_000) by (nonlinear_arith)
                    requires -1_000_000 <= m <= 1_000_000, 0 <= n <= 1_000_000;
                let k = (UNIT * UNIT) as int + m * n;
                assert(-20_000_000_000_000_000_000 <= t * k <= 20_000_000_000_000_000_000) by (nonlinear_arith)
                    requires -MAX_WEIGHT <= t <= MAX_WEIGHT, 0 <= k <= 2_000_000_000_000;
                assert(-sum_bound() * UNIT <= ws * UNIT <= sum_bound() * UNIT) by (nonlinear_arith)
                    requires -sum_bound() <= ws <= sum_bound();
            }
            let k = (UNIT as i128) * (UNIT as i128) + m * n;
            (ws * (UNIT as i128) < t * k, UNIT - cfg.noise_level)
        },
        ObfuscationStrategy::IPFE => (p.collateral_ratio(price) < COARSE_RATIO, 200_000 + u * 4 / 10),
        _ => (p.collateral_ratio(price) < COARSE_RATIO, u),
    }
}

/// Bid priority `gas_priority * confidence`, in millionths.
pub open spec fn priority_spec(gas: int, confidence: int) -> int {
    gas * confidence / (UNIT as int)
}

pub fn priority(gas: u64, confidence: u64) -> (r: u64)
    requires
        gas <= UNIT,
        confidence <= UNIT,
    ensures
        r == priority_spec(gas as int, confidence as int),
        r <= UNIT,
{
    proof {
        assert(gas * confidence <= UNIT * UNIT) by (nonlinear_arith)
            requires gas <= UNIT, confidence <= UNIT;
        assert((gas * confidence) as int / (UNIT as int) <= UNIT) by (nonlinear_arith)
            requires gas * confidence <= UNIT * UNIT;
    }
    gas * confidence / UNIT
}

} // verus!
