use ipfe_poa::auction::{distribute, select_winner, shares};
use ipfe_poa::generate::{generate_bidders, new_position, Bidder};
use ipfe_poa::metrics::{coverage, gas_waste_ratio, profit_concentration, share, top_cohort, top_profit_sum};
use ipfe_poa::model::{Config, ConfigError, Position, MAX_WEIGHT};
use ipfe_poa::poa::{compute_poa, summarize};
use ipfe_poa::random::{fresh_draws, run_strategy, simulate_game};
use ipfe_poa::run::{draws_needed, play, simulate_run, RunResult};
use ipfe_poa::scoring::{is_liquidatable, perceive, priority};
use ipfe_poa::strategy::ObfuscationStrategy;
use ipfe_poa::UNIT;
use rand::rngs::StdRng;
use rand::SeedableRng;

fn front_runner_share(results: &[RunResult]) -> f64 {
    results
        .iter()
        .map(|r| {
            if r.total_profit > 0 {
                r.front_runner_profit as f64 / r.total_profit as f64
            } else {
                0.0
            }
        })
        .sum::<f64>()
        / results.len() as f64
}

fn bidder(id: usize, gas: u64) -> Bidder {
    Bidder { id, gas_priority: gas, total_profit: 0, successful_liquidations: 0 }
}

#[test]
fn test_cdp_features() {
    let cfg = Config::default_config();
    let mut rng = StdRng::seed_from_u64(7);
    let d = fresh_draws(&mut rng, 4);
    let cdp = new_position(&cfg, 0, d[0], d[1], d[2], d[3]);
    let features = cdp.features(cfg.reference_price);

    assert!(features.ratio > UNIT as u128);
    assert!(features.volatility <= UNIT as u128);
}

#[test]
fn test_transparent_strategy() {
    let cfg = Config::default_config();
    let mut rng = StdRng::seed_from_u64(11);
    let result = simulate_game(&cfg, ObfuscationStrategy::Transparent, &mut rng);

    assert!(result.successful_liquidations > 0 || result.missed_liquidations == 0);
}

#[test]
fn test_ipfe_reduces_front_running() {
    let cfg = Config::default_config();
    let mut rng = StdRng::seed_from_u64(13);

    let transparent_results = run_strategy(&cfg, ObfuscationStrategy::Transparent, 100, &mut rng);
    let ipfe_results = run_strategy(&cfg, ObfuscationStrategy::IPFE, 100, &mut rng);

    let transparent_fr = front_runner_share(&transparent_results);
    let ipfe_fr = front_runner_share(&ipfe_results);

    println!("Transparent front-runner share: {:.1}%", transparent_fr * 100.0);
    println!("IPFE front-runner share: {:.1}%", ipfe_fr * 100.0);
}

#[test]
fn transparent_front_running_exceeds_hidden_strategies() {
    let cfg = Config::default_config();
    let mut rng = StdRng::seed_from_u64(17);
    let transparent = front_runner_share(&run_strategy(&cfg, ObfuscationStrategy::Transparent, 200, &mut rng));
    let ipfe = front_runner_share(&run_strategy(&cfg, ObfuscationStrategy::IPFE, 200, &mut rng));
    let fair = front_runner_share(&run_strategy(&cfg, ObfuscationStrategy::FairRAI, 200, &mut rng));
    let fair5050 = front_runner_share(&run_strategy(&cfg, ObfuscationStrategy::FairRAI5050, 200, &mut rng));
    assert!(transparent > ipfe);
    assert!(transparent > fair);
    assert!(transparent > fair5050);
}

#[test]
fn default_configuration() {
    let cfg = Config::default_config();
    assert_eq!(cfg.num_positions, 100);
    assert_eq!(cfg.num_bidders, 20);
    assert_eq!(cfg.num_runs, 10_000);
    assert_eq!(cfg.reference_price, 2_000_000_000);
    assert_eq!(cfg.penalty_rate, 130_000);
    assert_eq!(cfg.noise_level, 290_000);
    assert_eq!(cfg.threshold, 2_000_000);
    assert_eq!(cfg.shocked_price(), 1_800_000_000);
    assert_eq!(draws_needed(&cfg), 2520);
}

#[test]
fn generated_positions_respect_ranges() {
    let cfg = Config::default_config();
    let mut rng = StdRng::seed_from_u64(3);
    for id in 0..500 {
        let d = fresh_draws(&mut rng, 4);
        let p = new_position(&cfg, id, d[0], d[1], d[2], d[3]);
        let f = p.features(cfg.reference_price);
        assert!(f.ratio >= 1_300_000);
        assert!(f.volatility <= UNIT as u128);
        assert!(p.collateral >= UNIT && p.collateral < 10 * UNIT);
    }
}

#[test]
fn position_from_extreme_draws() {
    let cfg = Config::default_config();
    let p = new_position(&cfg, 4, 0, 0, 0, 0);
    assert_eq!(p.id, 4);
    assert_eq!(p.collateral, 1_000_000);
    // 1 unit at 2000 with a ratio of 1.3
    assert_eq!(p.debt, 1_538_461_538);
    assert_eq!(p.collateral_ratio(cfg.reference_price), 1_300_000);
    let q = new_position(&cfg, 5, 999_999, 999_999, 999_999, 999_999);
    assert_eq!(q.collateral, 9_999_991);
    assert_eq!(q.age_days, 364_999_635);
    assert_eq!(q.volatility, 999_999);
}

#[test]
fn liquidation_profit_values() {
    let p = Position { id: 0, collateral: 1_000_000, debt: 1_000_000_000, age_days: 0, volatility: 0 };
    // (2000 - 1000 - 50) * 0.13 = 123.5
    assert_eq!(p.liquidation_profit(2_000_000_000, 50_000_000, 130_000), 123_500_000);
    let under = Position { id: 1, collateral: 1_000_000, debt: 2_000_000_000, age_days: 0, volatility: 0 };
    assert_eq!(under.liquidation_profit(2_000_000_000, 50_000_000, 130_000), 0);
}

#[test]
fn features_and_eligibility() {
    let cfg = Config::default_config();
    let p = Position { id: 0, collateral: 1_000_000, debt: 1_500_000_000, age_days: 730_000_000, volatility: 500_000 };
    let f = p.features(2_000_000_000);
    assert_eq!(f.ratio, 1_333_333);
    assert_eq!(f.utilization, 750_000);
    assert_eq!(f.age, 1_000_000);
    assert_eq!(f.size, 200_000);
    // 2*1.333333 - 0.5 - 1.5*0.75 + 0.3 - 0.3*0.2 = 1.281666 < 2
    assert!(is_liquidatable(&cfg, &p, 2_000_000_000));
    let safe = Position { id: 1, collateral: 1_000_000, debt: 500_000_000, age_days: 0, volatility: 0 };
    assert!(!is_liquidatable(&cfg, &safe, 2_000_000_000));
}

#[test]
fn perception_by_strategy() {
    let cfg = Config::default_config();
    let p = Position { id: 0, collateral: 1_000_000, debt: 1_500_000_000, age_days: 0, volatility: 0 };
    assert_eq!(perceive(&cfg, ObfuscationStrategy::Transparent, &p, 2_000_000_000, 123), (true, UNIT));
    assert_eq!(perceive(&cfg, ObfuscationStrategy::NoiseBased, &p, 2_000_000_000, 500_000).1, 710_000);
    assert_eq!(perceive(&cfg, ObfuscationStrategy::IPFE, &p, 2_000_000_000, 500_000), (true, 400_000));
    assert_eq!(perceive(&cfg, ObfuscationStrategy::KeeperPool, &p, 2_000_000_000, 42), (true, 42));
    let high = Position { id: 1, collateral: 1_000_000, debt: 1_000_000_000, age_days: 0, volatility: 0 };
    assert!(!perceive(&cfg, ObfuscationStrategy::FairRAI, &high, 2_000_000_000, 42).0);
    assert_eq!(priority(500_000, 400_000), 200_000);
}

#[test]
fn winner_selection() {
    let bids = vec![None, Some(300), Some(700), Some(700), None];
    assert_eq!(select_winner(ObfuscationStrategy::Transparent, &bids, 0), Some(2));
    assert_eq!(select_winner(ObfuscationStrategy::FairRAI, &bids, 0), Some(1));
    assert_eq!(select_winner(ObfuscationStrategy::FairRAI, &bids, 400_000), Some(2));
    assert_eq!(select_winner(ObfuscationStrategy::KeeperPool, &bids, 999_999), Some(3));
    assert_eq!(select_winner(ObfuscationStrategy::IPFE, &vec![None, None], 5), None);
}

#[test]
fn keeper_pool_split_of_one_hundred() {
    let bids = vec![Some(1), Some(2), Some(3), Some(4)];
    let mut bs: Vec<Bidder> = (0..4).map(|i| bidder(i, 0)).collect();
    distribute(ObfuscationStrategy::KeeperPool, 100_000_000, &bids, 2, &mut bs);
    let total: u128 = bs.iter().map(|b| b.total_profit).sum();
    for b in &bs {
        assert_eq!(b.total_profit, 17_500_000);
    }
    assert_eq!(total, 70_000_000);
    assert_eq!(bs[2].successful_liquidations, 1);
    assert_eq!(bs[0].successful_liquidations, 0);
}

#[test]
fn fair_splits_hand_out_everything() {
    let bids = vec![Some(1), None, Some(2), Some(3)];
    let mut bs: Vec<Bidder> = (0..4).map(|i| bidder(i, 0)).collect();
    distribute(ObfuscationStrategy::FairRAI, 100_000_000, &bids, 0, &mut bs);
    assert_eq!(bs[0].total_profit, 60_000_000);
    assert_eq!(bs[1].total_profit, 0);
    assert_eq!(bs[2].total_profit, 20_000_000);
    assert_eq!(bs[3].total_profit, 20_000_000);

    let mut cs: Vec<Bidder> = (0..4).map(|i| bidder(i, 0)).collect();
    distribute(ObfuscationStrategy::FairRAI5050, 100_000_001, &bids, 3, &mut cs);
    let total: u128 = cs.iter().map(|b| b.total_profit).sum();
    assert_eq!(total, 100_000_001);
    assert_eq!(cs[0].total_profit, 25_000_000);
    assert_eq!(cs[3].total_profit, 50_000_001);

    assert_eq!(shares(ObfuscationStrategy::FairRAI, 100, 1), (100, 0));
    assert_eq!(shares(ObfuscationStrategy::Transparent, 100, 5), (100, 0));
    assert_eq!(shares(ObfuscationStrategy::KeeperPool, 100, 3), (24, 23));
}

fn wide_config(threshold: i64, positions: usize, bidders: usize) -> Config {
    let mut cfg = Config::default_config();
    cfg.threshold = threshold;
    cfg.num_positions = positions;
    cfg.num_bidders = bidders;
    cfg
}

#[test]
fn single_position_single_bidder_transparent() {
    let cfg = wide_config(MAX_WEIGHT, 1, 1);
    let draws = vec![0, 0, 0, 0, 900_000, 0, 0];
    assert_eq!(draws.len(), draws_needed(&cfg));
    let (tally, bidders) = play(&cfg, ObfuscationStrategy::Transparent, &draws);
    let p = new_position(&cfg, 0, 0, 0, 0, 0);
    let profit = p.liquidation_profit(cfg.shocked_price(), cfg.gas_cost, cfg.penalty_rate);
    assert_eq!(tally.successful_liquidations, 1);
    assert_eq!(tally.failed_attempts, 0);
    assert_eq!(bidders[0].total_profit, profit);
    assert_eq!(tally.total_profit, profit);
    assert_eq!(tally.front_runner_profit, profit);
    let r = simulate_run(&cfg, ObfuscationStrategy::Transparent, &draws);
    assert_eq!(r.coverage, UNIT);
    assert_eq!(r.gas_waste_ratio, 0);
}

#[test]
fn no_eligible_positions_gives_zero_coverage() {
    let cfg = wide_config(-MAX_WEIGHT, 100, 20);
    let mut rng = StdRng::seed_from_u64(5);
    let draws = fresh_draws(&mut rng, draws_needed(&cfg));
    for st in ObfuscationStrategy::all() {
        let r = simulate_run(&cfg, st, &draws);
        assert_eq!(r.coverage, 0);
        assert_eq!(r.missed_liquidations, 0);
        assert_eq!(r.successful_liquidations, 0);
        let expected = if r.failed_attempts > 0 { UNIT } else { 0 };
        assert_eq!(r.gas_waste_ratio, expected);
    }
}

#[test]
fn equal_draws_give_equal_runs() {
    let cfg = Config::default_config();
    let mut rng = StdRng::seed_from_u64(99);
    let draws = fresh_draws(&mut rng, draws_needed(&cfg));
    for st in ObfuscationStrategy::all() {
        let a = simulate_run(&cfg, st, &draws);
        let b = simulate_run(&cfg, st, &draws.clone());
        assert_eq!(a, b);
    }
    let mut r1 = StdRng::seed_from_u64(1234);
    let mut r2 = StdRng::seed_from_u64(1234);
    assert_eq!(
        simulate_game(&cfg, ObfuscationStrategy::FairRAI, &mut r1),
        simulate_game(&cfg, ObfuscationStrategy::FairRAI, &mut r2)
    );
}

#[test]
fn run_statistics_in_unit_range() {
    let cfg = Config::default_config();
    let mut rng = StdRng::seed_from_u64(21);
    for st in ObfuscationStrategy::all() {
        for r in run_strategy(&cfg, st, 20, &mut rng) {
            assert!(r.profit_concentration <= UNIT);
            assert!(r.gas_waste_ratio <= UNIT);
            assert!(r.coverage <= UNIT);
            assert_eq!(r.strategy, st);
        }
    }
}

#[test]
fn fresh_draws_are_uniform_values_below_unit() {
    let mut rng = StdRng::seed_from_u64(8);
    let d = fresh_draws(&mut rng, 1000);
    assert_eq!(d.len(), 1000);
    assert!(d.iter().all(|&u| u < UNIT));
    assert!(d.iter().any(|&u| u != d[0]));
}

#[test]
fn metric_values() {
    assert_eq!(gas_waste_ratio(1, 3), 250_000);
    assert_eq!(gas_waste_ratio(0, 0), 0);
    assert_eq!(coverage(3, 4), 750_000);
    assert_eq!(coverage(0, 0), 0);
    assert_eq!(share(1, 4), 250_000);
    assert_eq!(share(0, 0), 0);
    assert_eq!(top_cohort(20), 4);
    assert_eq!(top_cohort(3), 1);
    assert_eq!(top_cohort(12), 2);
    let profits = vec![5, 40, 10, 40, 5, 0, 0, 0, 0, 0];
    assert_eq!(top_profit_sum(&profits, 2), 80);
    assert_eq!(top_profit_sum(&profits, 3), 90);
    assert_eq!(top_profit_sum(&profits, 20), 100);
    assert_eq!(profit_concentration(&profits, 100), 800_000);
    assert_eq!(profit_concentration(&profits, 200), 400_000);
    assert_eq!(profit_concentration(&vec![0, 0], 0), 0);
}

fn result(conc: u64, waste: u64, cov: u64, frp: u128, total: u128) -> RunResult {
    RunResult {
        strategy: ObfuscationStrategy::IPFE,
        successful_liquidations: 3,
        failed_attempts: 1,
        missed_liquidations: 2,
        total_profit: total,
        front_runner_profit: frp,
        profit_concentration: conc,
        gas_waste_ratio: waste,
        coverage: cov,
    }
}

#[test]
fn price_of_anarchy_values() {
    let one = vec![result(500_000, 250_000, 750_000, 10, 40)];
    // (0.5 + 0.25 + 0.25) / 0.2 = 5
    assert_eq!(compute_poa(&one), 5_000_000);
    let two = vec![result(500_000, 250_000, 750_000, 10, 40), result(300_000, 50_000, 950_000, 0, 0)];
    // (0.4 + 0.15 + 0.15) / 0.2 = 3.5
    assert_eq!(compute_poa(&two), 3_500_000);
    let rep = summarize(&two);
    assert_eq!(rep.avg_successful, 3_000_000);
    assert_eq!(rep.avg_failed, 1_000_000);
    assert_eq!(rep.avg_missed, 2_000_000);
    assert_eq!(rep.avg_concentration, 400_000);
    assert_eq!(rep.front_runner_share, 125_000);
    assert_eq!(rep.poa, 3_500_000);
    let ideal = vec![result(200_000, 0, 1_000_000, 0, 0)];
    assert_eq!(compute_poa(&ideal), 1_000_000);
}

#[test]
fn strategy_names_and_order() {
    let all = ObfuscationStrategy::all();
    assert_eq!(all.len(), 6);
    assert_eq!(all[0], ObfuscationStrategy::Transparent);
    assert_eq!(all[5], ObfuscationStrategy::KeeperPool);
    assert_eq!(ObfuscationStrategy::NoiseBased.name(), "Noise-Based");
    assert_eq!(ObfuscationStrategy::IPFE.name(), "IPFE Only");
    assert_eq!(ObfuscationStrategy::FairRAI.name(), "FairRAI 60/40");
    assert_eq!(ObfuscationStrategy::KeeperPool.name(), "Keeper Pool 70/30");
    assert!(ObfuscationStrategy::FairRAI5050.uses_random_winner());
    assert!(!ObfuscationStrategy::NoiseBased.uses_random_winner());
}

#[test]
fn bidders_start_empty() {
    let draws = vec![10, 20, 900_000];
    let bs = generate_bidders(2, &draws, 1);
    assert_eq!(bs.len(), 2);
    assert_eq!(bs[0], Bidder { id: 0, gas_priority: 20, total_profit: 0, successful_liquidations: 0 });
    assert_eq!(bs[1].gas_priority, 900_000);
}

#[test]
fn configuration_errors() {
    let ok = Config::default_config();
    assert_eq!(ok.validate(), Ok(()));
    let cases: Vec<(Box<dyn Fn(&mut Config)>, ConfigError)> = vec![
        (Box::new(|c: &mut Config| c.num_positions = 0), ConfigError::PositionCount),
        (Box::new(|c: &mut Config| c.num_bidders = 0), ConfigError::BidderCount),
        (Box::new(|c: &mut Config| c.num_runs = 0), ConfigError::RunCount),
        (Box::new(|c: &mut Config| c.reference_price = 0), ConfigError::Price),
        (Box::new(|c: &mut Config| c.penalty_rate = 2_000_000), ConfigError::PenaltyRate),
        (Box::new(|c: &mut Config| c.price_shock = 1_000_000), ConfigError::PriceShock),
        (Box::new(|c: &mut Config| c.noise_level = 1_000_001), ConfigError::NoiseLevel),
        (Box::new(|c: &mut Config| c.gas_cost = u64::MAX), ConfigError::GasCost),
        (Box::new(|c: &mut Config| c.weights.age = MAX_WEIGHT + 1), ConfigError::Weights),
        (Box::new(|c: &mut Config| c.threshold = -MAX_WEIGHT - 1), ConfigError::Threshold),
    ];
    for (change, err) in cases {
        let mut c = Config::default_config();
        change(&mut c);
        assert_eq!(c.validate(), Err(err));
    }
    let mut both = Config::default_config();
    both.num_bidders = 0;
    both.noise_level = 5_000_000;
    assert_eq!(both.validate(), Err(ConfigError::BidderCount));
}

#[test]
fn deep_price_shock_is_accepted() {
    let mut cfg = Config::default_config();
    cfg.price_shock = 999_999;
    assert_eq!(cfg.validate(), Ok(()));
    assert_eq!(cfg.shocked_price(), 2_000);
    let mut rng = StdRng::seed_from_u64(31);
    let r = simulate_game(&cfg, ObfuscationStrategy::Transparent, &mut rng);
    assert_eq!(r.failed_attempts, 0);
    assert_eq!(r.missed_liquidations, 0);
    assert_eq!(r.total_profit, 0);
}

#[test]
fn keeper_pool_runs_keep_thirty_percent() {
    let cfg = Config::default_config();
    let mut rng = StdRng::seed_from_u64(41);
    let draws = fresh_draws(&mut rng, draws_needed(&cfg));
    let (tally, bidders) = play(&cfg, ObfuscationStrategy::KeeperPool, &draws);
    let paid: u128 = bidders.iter().map(|b| b.total_profit).sum();
    assert!(10 * paid <= 7 * tally.total_profit);
    let r = simulate_run(&cfg, ObfuscationStrategy::KeeperPool, &draws);
    assert!(r.profit_concentration <= 700_000);
    for st in [ObfuscationStrategy::FairRAI, ObfuscationStrategy::FairRAI5050, ObfuscationStrategy::Transparent] {
        let (t, bs) = play(&cfg, st, &draws);
        let paid: u128 = bs.iter().map(|b| b.total_profit).sum();
        assert_eq!(paid, t.total_profit);
    }
}
