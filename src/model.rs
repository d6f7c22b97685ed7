use vstd::prelude::*;
use crate::UNIT;

verus! {

/// Largest reference price accepted, in millionths of a currency unit.
pub const MAX_PRICE: u64 = 1_000_000_000_000;
/// Largest collateral a position may hold, in millionths of an asset unit.
pub const MAX_COLLATERAL: u64 = 1_000_000_000;
/// Largest debt a position may hold, in millionths of a currency unit.
pub const MAX_DEBT: u64 = 1_000_000_000_000_000;
/// Largest magnitude of a weight or of the threshold, in millionths.
pub const MAX_WEIGHT: i64 = 10_000_000;
/// Largest gas cost, in millionths of a currency unit.
pub const MAX_GAS: u64 = 1_000_000_000_000_000;
/// Largest population sizes accepted.
pub const MAX_POSITIONS: usize = 10_000;
pub const MAX_BIDDERS: usize = 1_000;

/// The protocol's private linear scoring weights, one per feature, in millionths.
#[derive(Clone, Copy, Debug, PartialEq, Eq, Structural)]
pub struct Weights {
    pub ratio: i64,
    pub volatility: i64,
    pub utilization: i64,
    pub age: i64,
    pub size: i64,
}

/// Simulation parameters. Prices and amounts are in millionths of a currency
/// unit, rates and fractions in millionths.
#[derive(Clone, Copy, Debug, PartialEq, Eq, Structural)]
pub struct Config {
    pub num_positions: usize,
    pub num_bidders: usize,
    pub num_runs: usize,
    pub reference_price: u64,
    pub penalty_rate: u64,
    pub price_shock: u64,
    pub noise_level: u64,
    pub gas_cost: u64,
    pub weights: Weights,
    pub threshold: i64,
}

pub open spec fn weight_ok(w: i64) -> bool {
    -MAX_WEIGHT <= w <= MAX_WEIGHT
}

/// Which parameter of a configuration is out of range.
#[derive(Clone, Copy, Debug, PartialEq, Eq, Structural)]
pub enum ConfigError {
    PositionCount,
    BidderCount,
    RunCount,
    Price,
    PenaltyRate,
    PriceShock,
    NoiseLevel,
    GasCost,
    Weights,
    Threshold,
}

fn weight_in_range(w: i64) -> (r: bool)
    ensures
        r == weight_ok(w),
{
    -MAX_WEIGHT <= w && w <= MAX_WEIGHT
}

impl Config {
    /// The first out-of-range parameter, in field order, if any.
    pub open spec fn error_spec(self) -> Option<ConfigError> {
        if !(1 <= self.num_positions <= MAX_POSITIONS) {
            Some(ConfigError::PositionCount)
        } else if !(1 <= self.num_bidders <= MAX_BIDDERS) {
            Some(ConfigError::BidderCount)
        } else if !(1 <= self.num_runs) {
            Some(ConfigError::RunCount)
        } else if !(UNIT <= self.reference_price <= MAX_PRICE) {
            Some(ConfigError::Price)
        } else if !(self.penalty_rate <= UNIT) {
            Some(ConfigError::PenaltyRate)
        } else if !(self.price_shock < UNIT) {
            Some(ConfigError::PriceShock)
        } else if !(self.noise_level <= UNIT) {
            Some(ConfigError::NoiseLevel)
        } else if !(self.gas_cost <= MAX_GAS) {
            Some(ConfigError::GasCost)
        } else if !(weight_ok(self.weights.ratio) && weight_ok(self.weights.volatility) && weight_ok(
            self.weights.utilization,
        ) && weight_ok(self.weights.age) && weight_ok(self.weights.size)) {
            Some(ConfigError::Weights)
        } else if !weight_ok(self.threshold) {
            Some(ConfigError::Threshold)
        } else {
            None
        }
    }

    /// Checks every parameter before a simulation: `Ok` exactly when the
    /// configuration is valid, else the first parameter out of range.
    pub fn validate(&self) -> (r: Result<(), ConfigError>)
        ensures
            r is Ok <==> self.valid(),
            r is Ok <==> self.error_spec() is None,
            r is Err ==> Some(r->Err_0) == self.error_spec(),
    {
        if !(1 <= self.num_positions && self.num_positions <= MAX_POSITIONS) {
            Err(ConfigError::PositionCount)
        } else if !(1 <= self.num_bidders && self.num_bidders <= MAX_BIDDERS) {
            Err(ConfigError::BidderCount)
        } else if !(1 <= self.num_runs) {
            Err(ConfigError::RunCount)
        } else if !(UNIT <= self.reference_price && self.reference_price <= MAX_PRICE) {
            Err(ConfigError::Price)
        } else if !(self.penalty_rate <= UNIT) {
            Err(ConfigError::PenaltyRate)
        } else if !(self.price_shock < UNIT) {
            Err(ConfigError::PriceShock)
        } else if !(self.noise_level <= UNIT) {
            Err(ConfigError::NoiseLevel)
        } else if !(self.gas_cost <= MAX_GAS) {
            Err(ConfigError::GasCost)
        } else if !(weight_in_range(self.weights.ratio) && weight_in_range(self.weights.volatility)
            && weight_in_range(self.weights.utilization) && weight_in_range(self.weights.age)
            && weight_in_range(self.weights.size)) {
            Err(ConfigError::Weights)
        } else if !weight_in_range(self.threshold) {
            Err(ConfigError::Threshold)
        } else {
            Ok(())
        }
    }

    /// The accepted configurations: at least one position (at most 10 000)
    /// and one bidder (at most 1 000), at least one run, a reference price
    /// from one currency unit (so that every generated debt is positive) up
    /// to 10^6, rates within `[0, 1]`, a price shock below 100%, a gas cost up
    /// to 10^9 and weights and threshold within `[-10, 10]`. Within these
    /// ranges no intermediate value overflows.
    pub open spec fn valid(self) -> bool {
        &&& 1 <= self.num_positions <= MAX_POSITIONS
        &&& 1 <= self.num_bidders <= MAX_BIDDERS
        &&& 1 <= self.num_runs
        &&& UNIT <= self.reference_price <= MAX_PRICE
        &&& self.penalty_rate <= UNIT
        &&& self.price_shock < UNIT
        &&& self.noise_level <= UNIT
        &&& self.gas_cost <= MAX_GAS
        &&& weight_ok(self.weights.ratio)
        &&& weight_ok(self.weights.volatility)
        &&& weight_ok(self.weights.utilization)
        &&& weight_ok(self.weights.age)
        &&& weight_ok(self.weights.size)
        &&& weight_ok(self.threshold)
    }

    /// Price after the shock: `price * (1 - shock)`.
    pub open spec fn shocked_price_spec(self) -> int {
        (self.reference_price as int) * ((UNIT - self.price_shock) as int) / (UNIT as int)
    }

    /// Documented defaults: 100 positions, 20 bidders, 10 000 runs, price 2000,
    /// penalty 0.13, shock 10%, noise 0.29, gas cost 50,
    /// weights [2.0, -1.0, -1.5, 0.3, -0.3], threshold 2.0.
    pub fn default_config() -> (r: Config)
        ensures
            r.valid(),
            r.num_positions == 100,
            r.num_bidders == 20,
            r.num_runs == 10_000,
            r.reference_price == 2_000_000_000,
            r.penalty_rate == 130_000,
            r.price_shock == 100_000,
            r.noise_level == 290_000,
            r.gas_cost == 50_000_000,
            r.weights.ratio == 2_000_000,
            r.weights.volatility == -1_000_000,
            r.weights.utilization == -1_500_000,
            r.weights.age == 300_000,
            r.weights.size == -300_000,
            r.threshold == 2_000_000,
    {
        Config {
            num_positions: 100,
            num_bidders: 20,
            num_runs: 10_000,
            reference_price: 2_000_000_000,
            penalty_rate: 130_000,
            price_shock: 100_000,
            noise_level: 290_000,
            gas_cost: 50_000_000,
            weights: Weights {
                ratio: 2_000_000,
                volatility: -1_000_000,
                utilization: -1_500_000,
                age: 300_000,
                size: -300_000,
            },
            threshold: 2_000_000,
        }
    }

    /// Applies the price shock once: `price * (1 - shock)`, rounded down.
    pub fn shocked_price(&self) -> (r: u64)
        requires
            self.valid(),
        ensures
            r == self.shocked_price_spec(),
            1 <= r <= MAX_PRICE,
    {
        let p = self.reference_price as u128;
        let k = (UNIT - self.price_shock) as u128;
        proof {
            assert(p * k <= MAX_PRICE * UNIT) by (nonlinear_arith)
                requires p <= MAX_PRICE, k <= UNIT;
            assert(p * k >= 1_000_000) by (nonlinear_arith)
                requires p >= UNIT, k >= 1;
            assert((p * k) as int / (UNIT as int) <= MAX_PRICE) by (nonlinear_arith)
                requires p * k <= MAX_PRICE * UNIT;
            assert((p * k) as int / (UNIT as int) >= 1) by (nonlinear_arith)
                requires p * k >= 1_000_000;
        }
        ((p * k) / (UNIT as u128)) as u64
    }
}

/// A borrower's collateralized debt record, amounts in millionths.
#[derive(Clone, Copy, Debug, PartialEq, Eq, Structural)]
pub struct Position {
    pub id: usize,
    pub collateral: u64,
    pub debt: u64,
    /// Age in millionths of a day.
    pub age_days: u64,
    /// Volatility score in millionths, within `[0, UNIT]`.
    pub volatility: u64,
}

/// The five features of a position, in millionths.
#[derive(Clone, Copy, Debug, PartialEq, Eq, Structural)]
pub struct Features {
    pub ratio: u128,
    pub volatility: u128,
    pub utilization: u128,
    pub age: u128,
    pub size: u128,
}

pub open spec fn min_int(a: int, b: int) -> int {
    if a <= b { a } else { b }
}

/// Prices at which features and profit are computed: from one millionth of
/// a currency unit up to 10^6 units (any shocked price of a valid configuration).
pub open spec fn price_ok(price: int) -> bool {
    1 <= price <= MAX_PRICE
}

impl Position {
    pub open spec fn valid(self) -> bool {
        &&& UNIT <= self.collateral <= MAX_COLLATERAL
        &&& 1 <= self.debt <= MAX_DEBT
        &&& self.volatility <= UNIT
    }

    /// Collateral value `collateral * price`, in millionths squared.
    pub open spec fn value_sq(self, price: int) -> int {
        (self.collateral as int) * price
    }

    /// Collateral ratio `collateral * price / debt`.
    pub open spec fn ratio_spec(self, price: int) -> int {
        self.value_sq(price) / (self.debt as int)
    }

    pub open spec fn features_spec(self, price: int) -> Features {
        Features {
            ratio: self.ratio_spec(price) as u128,
            volatility: self.volatility as u128,
            utilization: ((self.debt as int) * (UNIT as int) * (UNIT as int) / self.value_sq(price)) as u128,
            age: min_int(self.age_days as int / 365, UNIT as int) as u128,
            size: min_int(self.value_sq(price) / (UNIT as int * 10_000), 2 * UNIT as int) as u128,
        }
    }

    /// Liquidation profit `max(0, collateral * price - debt - gas) * penalty`.
    pub open spec fn profit_spec(self, price: int, gas: int, penalty: int) -> int {
        let surplus = self.value_sq(price) / (UNIT as int) - (self.debt as int) - gas;
        if surplus <= 0 { 0 } else { surplus * penalty / (UNIT as int) }
    }

    /// Collateral value at `price`, in millionths squared.
    pub fn value(&self, price: u64) -> (r: u128)
        requires
            self.valid(),
            price_ok(price as int),
        ensures
            r == self.value_sq(price as int),
            UNIT <= r <= 1_000_000_000_000_000_000_000,
    {
        let c = self.collateral as u128;
        let p = price as u128;
        proof {
            assert(c * p <= 1_000_000_000_000_000_000_000) by (nonlinear_arith)
                requires c <= MAX_COLLATERAL, p <= MAX_PRICE;
            assert(c * p >= 1_000_000) by (nonlinear_arith)
                requires c >= UNIT, p >= 1;
        }
        c * p
    }

    /// Collateral ratio at `price`, in millionths, rounded down.
    pub fn collateral_ratio(&self, price: u64) -> (r: u128)
        requires
            self.valid(),
            price_ok(price as int),
        ensures
            r == self.ratio_spec(price as int),
            r <= 1_000_000_000_000_000_000_000,
    {
        let v = self.value(price);
        proof {
            assert(v <= 1_000_000_000_000_000_000_000) by (nonlinear_arith)
                requires v == self.collateral * price, self.collateral <= MAX_COLLATERAL, price <= MAX_PRICE;
            assert((v as int) / (self.debt as int) <= v) by (nonlinear_arith)
                requires self.debt >= 1, v >= 0;
        }
        v / self.debt as u128
    }

    /// The five features at `price`.
    pub fn features(&self, price: u64) -> (r: Features)
        requires
            self.valid(),
            price_ok(price as int),
        ensures
            r == self.features_spec(price as int),
            r.ratio <= 1_000_000_000_000_000_000_000,
            r.utilization <= 2_000_000_000_000_000_000_000,
            r.volatility <= UNIT,
            r.age <= UNIT,
            r.size <= 2 * UNIT,
    {
        let ratio = self.collateral_ratio(price);
        let v = self.value(price);
        let d = self.debt as u128;
        proof {
            assert(v >= 1_000_000) by (nonlinear_arith)
                requires v == self.collateral * price, self.collateral >= UNIT, price >= 1;
            assert(d * UNIT * UNIT <= MAX_DEBT * UNIT * UNIT) by (nonlinear_arith)
                requires d <= MAX_DEBT;
            assert((d * UNIT * UNIT) as int / (v as int) <= 2_000_000_000_000_000_000_000) by (nonlinear_arith)
                requires d <= MAX_DEBT, v >= 1_000_000, d >= 0;
        }
        let util = d * (UNIT as u128) * (UNIT as u128) / v;
        let age_raw = self.age_days as u128 / 365;
        let age = if age_raw <= UNIT as u128 { age_raw } else { UNIT as u128 };
        let size_raw = v / (UNIT as u128 * 10_000);
        let size = if size_raw <= 2 * UNIT as u128 { size_raw } else { 2 * UNIT as u128 };
        Features { ratio, volatility: self.volatility as u128, utilization: util, age, size }
    }

    /// Profit of liquidating at `price` with the given gas cost and penalty rate.
    pub fn liquidation_profit(&self, price: u64, gas: u64, penalty: u64) -> (r: u128)
        requires
            self.valid(),
            price_ok(price as int),
            penalty <= UNIT,
        ensures
            r == self.profit_spec(price as int, gas as int, penalty as int),
            r <= 1_000_000_000_000_000,
    {
        let v = self.value(price);
        proof {
            assert(v <= 1_000_000_000_000_000_000_000) by (nonlinear_arith)
                requires v == self.collateral * price, self.collateral <= MAX_COLLATERAL, price <= MAX_PRICE;
        }
        let value = v / (UNIT as u128);
        let cost = self.debt as u128 + gas as u128;
        if value <= cost {
            0
        } else {
            let surplus = value - cost;
            proof {
                assert((surplus * penalty) as int / (UNIT as int) <= surplus) by (nonlinear_arith)
                    requires penalty <= UNIT, surplus >= 0;
                assert(value <= 1_000_000_000_000_000) by (nonlinear_arith)
                    requires v <= 1_000_000_000_000_000_000_000, value == (v as int) / (UNIT as int);
            }
            surplus * penalty as u128 / (UNIT as u128)
        }
    }
}

/// Liquidation profit is never negative.
pub proof fn lemma_profit_nonnegative(p: Position, price: int, gas: int, penalty: int)
    requires
        penalty >= 0,
    ensures
        p.profit_spec(price, gas, penalty) >= 0,
{
    let surplus = p.value_sq(price) / (UNIT as int) - (p.debt as int) - gas;
    if surplus > 0 {
        assert(surplus * penalty >= 0) by (nonlinear_arith)
            requires surplus > 0, penalty >= 0;
    }
}

} // verus!
