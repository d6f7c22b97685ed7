use vstd::prelude::*;

verus! {

/// How much of the eligibility formula the protocol discloses to bidders.
#[derive(Clone, Copy, Debug, PartialEq, Eq, Structural)]
pub enum ObfuscationStrategy {
    /// Weights and threshold are public.
    Transparent,
    /// Formula public, threshold perturbed by noise.
    NoiseBased,
    /// Weights hidden; only the collateral ratio is observable.
    IPFE,
    /// Hidden weights, random winner, 60/40 split with the other bidders.
    FairRAI,
    /// As `FairRAI` with a 50/50 split.
    FairRAI5050,
    /// Hidden weights, 70% shared equally by all bidders, 30% kept by the protocol.
    KeeperPool,
}

impl ObfuscationStrategy {
    /// Whether the winner is drawn at random among the bidders
    /// rather than taken as the highest priority.
    pub open spec fn random_winner(self) -> bool {
        matches!(self, ObfuscationStrategy::FairRAI | ObfuscationStrategy::FairRAI5050 | ObfuscationStrategy::KeeperPool)
    }

    /// Whether bidders only observe the coarse collateral-ratio signal.
    pub open spec fn coarse_signal(self) -> bool {
        !matches!(self, ObfuscationStrategy::Transparent | ObfuscationStrategy::NoiseBased)
    }

    pub fn uses_random_winner(&self) -> (r: bool)
        ensures
            r == self.random_winner(),
    {
        match self {
            ObfuscationStrategy::FairRAI => true,
            ObfuscationStrategy::FairRAI5050 => true,
            ObfuscationStrategy::KeeperPool => true,
            _ => false,
        }
    }

    pub open spec fn all_spec() -> Seq<ObfuscationStrategy> {
        seq![
            ObfuscationStrategy::Transparent,
            ObfuscationStrategy::NoiseBased,
            ObfuscationStrategy::IPFE,
            ObfuscationStrategy::FairRAI,
            ObfuscationStrategy::FairRAI5050,
            ObfuscationStrategy::KeeperPool,
        ]
    }

    /// The six strategies in declaration order.
    pub fn all() -> (r: Vec<ObfuscationStrategy>)
        ensures
            r@ == Self::all_spec(),
    {
        let r = vec![
            ObfuscationStrategy::Transparent,
            ObfuscationStrategy::NoiseBased,
            ObfuscationStrategy::IPFE,
            ObfuscationStrategy::FairRAI,
            ObfuscationStrategy::FairRAI5050,
            ObfuscationStrategy::KeeperPool,
        ];
        assert(r@ =~= Self::all_spec());
        r
    }

    pub open spec fn name_spec(self) -> Seq<char> {
        match self {
            ObfuscationStrategy::Transparent => "Transparent"@,
            ObfuscationStrategy::NoiseBased => "Noise-Based"@,
            ObfuscationStrategy::IPFE => "IPFE Only"@,
            ObfuscationStrategy::FairRAI => "FairRAI 60/40"@,
            ObfuscationStrategy::FairRAI5050 => "FairRAI 50/50"@,
            ObfuscationStrategy::KeeperPool => "Keeper Pool 70/30"@,
        }
    }

    /// Display name used in reports.
    pub fn name(&self) -> (r: &'static str)
        ensures
            r@ == self.name_spec(),
    {
        match self {
            ObfuscationStrategy::Transparent => "Transparent",
            ObfuscationStrategy::NoiseBased => "Noise-Based",
            ObfuscationStrategy::IPFE => "IPFE Only",
            ObfuscationStrategy::FairRAI => "FairRAI 60/40",
            ObfuscationStrategy::FairRAI5050 => "FairRAI 50/50",
            ObfuscationStrategy::KeeperPool => "Keeper Pool 70/30",
        }
    }
}

} // verus!
