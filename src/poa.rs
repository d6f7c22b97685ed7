use vstd::prelude::*;
use crate::UNIT;
use crate::metrics::share_spec;
use crate::run::RunResult;

verus! {

/// Social cost of the ideal outcome: an even split (0.2), no waste, full coverage.
pub const SOCIAL_OPTIMUM: u64 = 200_000;
/// Floor of the denominator of the price of anarchy.
pub const MIN_OPTIMUM: u64 = 10_000;
/// Largest number of runs that can be reduced.
pub const MAX_RUNS: usize = 1_000_000_000;

/// The statistics of a run that are averaged, by number:
/// 0 successful liquidations, 1 failed attempts, 2 missed liquidations,
/// 3 profit concentration, 4 gas-waste ratio, 5 coverage, 6 front-runner share.
pub open spec fn stat(r: RunResult, f: int) -> int {
    if f == 0 {
        r.successful_liquidations as int
    } else if f == 1 {
        r.failed_attempts as int
    } else if f == 2 {
        r.missed_liquidations as int
    } else if f == 3 {
        r.profit_concentration as int
    } else if f == 4 {
        r.gas_waste_ratio as int
    } else if f == 5 {
        r.coverage as int
    } else {
        share_spec(r.front_runner_profit as int, r.total_profit as int)
    }
}

pub open spec fn stat_sum(s: Seq<RunResult>, f: int) -> int
    decreases s.len(),
{
    if s.len() == 0 {
        0
    } else {
        stat_sum(s.drop_last(), f) + stat(s.last(), f)
    }
}

/// Average of statistic `f`, in millionths for ratios and as it is for counts.
pub open spec fn average(s: Seq<RunResult>, f: int) -> int {
    stat_sum(s, f) / (s.len() as int)
}

/// `nash_cost = avg concentration + avg waste + (1 - avg coverage)`.
pub open spec fn nash_cost(s: Seq<RunResult>) -> int {
    average(s, 3) + average(s, 4) + (UNIT - average(s, 5))
}

/// Price of anarchy in millionths: `nash_cost / max(social_optimum, floor)`.
pub open spec fn poa_spec(s: Seq<RunResult>) -> int {
    nash_cost(s) * UNIT / (if SOCIAL_OPTIMUM >= MIN_OPTIMUM { SOCIAL_OPTIMUM as int } else { MIN_OPTIMUM as int })
}

/// Per-strategy report; every field in millionths.
#[derive(Clone, Copy, Debug, PartialEq, Eq, Structural)]
pub struct StrategyReport {
    pub avg_successful: u128,
    pub avg_failed: u128,
    pub avg_missed: u128,
    pub avg_concentration: u128,
    pub front_runner_share: u128,
    pub poa: u128,
}

pub open spec fn report_spec(s: Seq<RunResult>) -> StrategyReport {
    StrategyReport {
        avg_successful: (stat_sum(s, 0) * UNIT / (s.len() as int)) as u128,
        avg_failed: (stat_sum(s, 1) * UNIT / (s.len() as int)) as u128,
        avg_missed: (stat_sum(s, 2) * UNIT / (s.len() as int)) as u128,
        avg_concentration: average(s, 3) as u128,
        front_runner_share: average(s, 6) as u128,
        poa: poa_spec(s) as u128,
    }
}

pub open spec fn results_ok(s: Seq<RunResult>) -> bool {
    forall|i: int| 0 <= i < s.len() ==> (#[trigger] s[i]).valid()
}

proof fn lemma_stat_bound(r: RunResult, f: int)
    requires
        r.valid(),
    ensures
        0 <= stat(r, f) <= UNIT,
{
    if f >= 6 || f < 0 {
        assert(stat(r, f) == share_spec(r.front_runner_profit as int, r.total_profit as int));
        if r.total_profit > 0 {
            assert(share_spec(r.front_runner_profit as int, r.total_profit as int) == (r.front_runner_profit
                * UNIT) as int / (r.total_profit as int));
            assert(r.front_runner_profit * UNIT <= r.total_profit * UNIT) by (nonlinear_arith)
                requires r.front_runner_profit <= r.total_profit;
            assert((r.front_runner_profit * UNIT) as int / (r.total_profit as int) <= UNIT) by (nonlinear_arith)
                requires r.front_runner_profit * UNIT <= r.total_profit * UNIT, r.total_profit > 0;
            assert((r.front_runner_profit * UNIT) as int / (r.total_profit as int) >= 0) by (nonlinear_arith)
                requires r.total_profit > 0;
        }
    }
}

/// Sums of the seven statistics over all results.
fn stat_sums(results: &Vec<RunResult>) -> (r: [u128; 7])
    requires
        results@.len() <= MAX_RUNS,
        results_ok(results@),
    ensures
        forall|f: int| 0 <= f < 7 ==> #[trigger] r@[f] == stat_sum(results@, f),
        forall|f: int| 0 <= f < 7 ==> #[trigger] r@[f] <= results@.len() * UNIT,
{
    let mut sums: [u128; 7] = [0, 0, 0, 0, 0, 0, 0];
    let mut i: usize = 0;
    while i < results.len()
        invariant
            i <= results@.len(),
            results@.len() <= MAX_RUNS,
            results_ok(results@),
            forall|f: int| 0 <= f < 7 ==> #[trigger] sums@[f] == stat_sum(results@.take(i as int), f),
            forall|f: int| 0 <= f < 7 ==> #[trigger] sums@[f] <= i * UNIT,
        decreases results@.len() - i,
    {
        let r = results[i];
        let frs: u128 = if r.total_profit == 0 {
            0
        } else {
            proof {
                lemma_stat_bound(r, 6);
            }
            r.front_runner_profit * (UNIT as u128) / r.total_profit
        };
        let vals: [u128; 7] = [
            r.successful_liquidations as u128,
            r.failed_attempts as u128,
            r.missed_liquidations as u128,
            r.profit_concentration as u128,
            r.gas_waste_ratio as u128,
            r.coverage as u128,
            frs,
        ];
        proof {
            assert(results@.take(i as int + 1).drop_last() =~= results@.take(i as int));
            assert forall|f: int| 0 <= f < 7 implies #[trigger] vals@[f] == stat(r, f) && vals@[f] <= UNIT by {
                lemma_stat_bound(r, f);
            }
        }
        let mut f: usize = 0;
        while f < 7
            invariant
                f <= 7,
                i < results@.len(),
                results@.len() <= MAX_RUNS,
                r == results@[i as int],
                forall|g: int| 0 <= g < 7 ==> #[trigger] vals@[g] == stat(r, g) && vals@[g] <= UNIT,
                forall|g: int| 0 <= g < f ==> #[trigger] sums@[g] == stat_sum(results@.take(i as int + 1), g),
                forall|g: int| 0 <= g < f ==> #[trigger] sums@[g] <= (i + 1) * UNIT,
                forall|g: int| f <= g < 7 ==> #[trigger] sums@[g] == stat_sum(results@.take(i as int), g),
                forall|g: int| f <= g < 7 ==> #[trigger] sums@[g] <= i * UNIT,
                results@.take(i as int + 1).drop_last() =~= results@.take(i as int),
            decreases 7 - f,
        {
            sums[f] = sums[f] + vals[f];
            f = f + 1;
        }
        i = i + 1;
    }
    assert(results@.take(results@.len() as int) =~= results@);
    sums
}

/// Averages the results of one strategy's runs and reduces them to its
/// price of anarchy.
pub fn summarize(results: &Vec<RunResult>) -> (r: StrategyReport)
    requires
        1 <= results@.len() <= MAX_RUNS,
        results_ok(results@),
    ensures
        r == report_spec(results@),
        r.poa == poa_spec(results@),
{
    let sums = stat_sums(results);
    let n = results.len() as u128;
    let u = UNIT as u128;
    proof {
        assert forall|f: int| 0 <= f < 7 implies #[trigger] sums@[f] * UNIT <= MAX_RUNS * UNIT * UNIT by {
            assert(sums@[f] <= results@.len() * UNIT);
            assert(sums@[f] * UNIT <= MAX_RUNS * UNIT * UNIT) by (nonlinear_arith)
                requires sums@[f] <= results@.len() * UNIT, results@.len() <= MAX_RUNS;
        }
        assert forall|f: int| 0 <= f < 7 implies 0 <= #[trigger] (sums@[f] as int) / (n as int) <= UNIT by {
            assert((sums@[f] as int) / (n as int) <= UNIT) by (nonlinear_arith)
                requires sums@[f] <= n * UNIT, n >= 1;
        }
    }
    let avg_c = sums[3] / n;
    let avg_w = sums[4] / n;
    let avg_cov = sums[5] / n;
    let nash = avg_c + avg_w + (u - avg_cov);
    let optimum: u128 = if SOCIAL_OPTIMUM >= MIN_OPTIMUM { SOCIAL_OPTIMUM as u128 } else { MIN_OPTIMUM as u128 };
    StrategyReport {
        avg_successful: sums[0] * u / n,
        avg_failed: sums[1] * u / n,
        avg_missed: sums[2] * u / n,
        avg_concentration: avg_c,
        front_runner_share: sums[6] / n,
        poa: nash * u / optimum,
    }
}

/// Price of anarchy of one strategy's runs, in millionths.
pub fn compute_poa(results: &Vec<RunResult>) -> (r: u128)
    requires
        1 <= results@.len() <= MAX_RUNS,
        results_ok(results@),
    ensures
        r == poa_spec(results@),
{
    summarize(results).poa
}

} // verus!
