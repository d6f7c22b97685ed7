use vstd::prelude::*;
use rand::Rng;
use rand::rngs::StdRng;
use crate::UNIT;
use crate::generate::draws_ok;
use crate::model::Config;
use crate::poa::{results_ok, MAX_RUNS};
use crate::run::{draws_needed, draws_needed_spec, run_result_spec, simulate_run, RunResult};
use crate::strategy::ObfuscationStrategy;

verus! {

/// rand's seedable standard generator, carried opaquely to `draw_below`.
#[verifier::external_type_specification]
#[verifier::external_body]
pub struct ExStdRng(StdRng);

/// Relies on rand's `Rng::gen_range` on `0..bound`: for a non-empty range it
/// returns a value in `[0, bound)`; it panics only on an empty range.
#[verifier::external_body]
fn draw_below(rng: &mut StdRng, bound: u64) -> (r: u64)
    requires
        bound > 0,
    ensures
        r < bound,
{
    rng.gen_range(0..bound)
}

/// `n` uniform draws below `UNIT` from `rng`.
pub fn fresh_draws(rng: &mut StdRng, n: usize) -> (r: Vec<u64>)
    ensures
        r@.len() == n,
        draws_ok(r@),
{
    let mut r: Vec<u64> = Vec::new();
    let mut i: usize = 0;
    while i < n
        invariant
            i <= n,
            r@.len() == i,
            draws_ok(r@),
        decreases n - i,
    {
        let u = draw_below(rng, UNIT);
        r.push(u);
        i = i + 1;
    }
    r
}

/// `r` is the outcome of a run on some sequence of draws below `UNIT` of
/// the length that a run consumes.
pub open spec fn from_some_draws(cfg: Config, st: ObfuscationStrategy, r: RunResult) -> bool {
    exists|d: Seq<u64>|
        d.len() == draws_needed_spec(cfg) && draws_ok(d) && r == #[trigger] run_result_spec(cfg, st, d)
}

/// One run on fresh draws from `rng`. Whatever the draws, the result is the
/// run of `run_result_spec` on some sequence of draws below `UNIT` of the
/// length a run consumes, and lies in the ranges of `RunResult::valid`.
pub fn simulate_game(cfg: &Config, st: ObfuscationStrategy, rng: &mut StdRng) -> (r: RunResult)
    requires
        cfg.valid(),
    ensures
        from_some_draws(*cfg, st, r),
        r.valid(),
        r.strategy == st,
{
    let n = draws_needed(cfg);
    let draws = fresh_draws(rng, n);
    let r = simulate_run(cfg, st, &draws);
    assert(r == run_result_spec(*cfg, st, draws@));
    r
}

/// `runs` independent runs of one strategy, each on its own draws.
pub fn run_strategy(cfg: &Config, st: ObfuscationStrategy, runs: usize, rng: &mut StdRng) -> (r: Vec<RunResult>)
    requires
        cfg.valid(),
        runs <= MAX_RUNS,
    ensures
        r@.len() == runs,
        results_ok(r@),
        forall|i: int| 0 <= i < runs ==> (#[trigger] r@[i]).strategy == st,
        forall|i: int| 0 <= i < runs ==> from_some_draws(*cfg, st, #[trigger] r@[i]),
{
    let mut r: Vec<RunResult> = Vec::new();
    let mut i: usize = 0;
    while i < runs
        invariant
            cfg.valid(),
            i <= runs,
            r@.len() == i,
            results_ok(r@),
            forall|k: int| 0 <= k < i ==> (#[trigger] r@[k]).strategy == st,
            forall|k: int| 0 <= k < i ==> from_some_draws(*cfg, st, #[trigger] r@[k]),
        decreases runs - i,
    {
        let one = simulate_game(cfg, st, rng);
        r.push(one);
        i = i + 1;
    }
    r
}

} // verus!
