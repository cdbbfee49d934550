use vstd::prelude::*;

use crate::decimal::Decimal;

verus! {

/// A 32-byte ledger address, held as two 128-bit halves.
#[derive(Clone, Copy, Debug, PartialEq, Eq, Structural)]
pub struct Address {
    pub high: u128,
    pub low: u128,
}

/// One reward epoch of the staking schedule.
#[derive(Clone, Copy, Debug, PartialEq, Eq, Structural)]
pub struct StakingRound {
    /// Timestamp at which the round starts.
    pub start: u64,
    /// Reward pool of the round.
    pub amount: Decimal,
    /// Global debt shares when the round was created.
    pub all_points: u64,
}

/// The three-slot reward pipeline and its configuration.
#[derive(Clone, Copy, Debug, PartialEq, Eq, Structural)]
pub struct Staking {
    pub round_length: u32,
    pub amount_per_round: Decimal,
    pub finished_round: StakingRound,
    pub current_round: StakingRound,
    pub next_round: StakingRound,
}

impl Staking {
    /// The rounds follow one another at `len` apart.
    pub open spec fn contiguous(self, len: int) -> bool {
        &&& self.finished_round.start + len == self.current_round.start
        &&& self.current_round.start + len == self.next_round.start
    }
}

/// Protocol-wide accounting state.
#[derive(Clone, Copy, Debug, PartialEq, Eq, Structural)]
pub struct State {
    /// Total minted-debt weight.
    pub debt_shares: u64,
    /// Annualized debt interest rate.
    pub debt_interest_rate: Decimal,
    /// Interest minted into the USD synthetic so far.
    pub accumulated_debt_interest: Decimal,
    /// Timestamp of the last committed interest window.
    pub last_debt_adjustment: i64,
    /// Oracle staleness tolerance, in slots.
    pub max_delay: u32,
    pub staking: Staking,
}

/// A user's reward-point snapshot.
#[derive(Clone, Copy, Debug, PartialEq, Eq, Structural)]
pub struct UserStaking {
    pub amount_to_claim: Decimal,
    pub finished_round_points: u64,
    pub current_round_points: u64,
    pub next_round_points: u64,
    pub last_update: u64,
}

/// An amount of one collateral held by a user.
#[derive(Clone, Copy, Debug, PartialEq, Eq, Structural)]
pub struct CollateralEntry {
    pub amount: u64,
    pub collateral_address: Address,
}

/// A user's ledger.
#[derive(Clone, Debug)]
pub struct ExchangeAccount {
    pub debt_shares: u64,
    pub collaterals: Vec<CollateralEntry>,
    pub user_staking_data: UserStaking,
}

impl ExchangeAccount {
    /// Adds a collateral entry after the existing ones.
    pub fn append(&mut self, entry: CollateralEntry)
        ensures
            final(self).collaterals@ == old(self).collaterals@.push(entry),
            final(self).debt_shares == old(self).debt_shares,
            final(self).user_staking_data == old(self).user_staking_data,
    {
        self.collaterals.push(entry);
    }
}

/// A collateral accepted by the protocol.
#[derive(Clone, Copy, Debug, PartialEq, Eq, Structural)]
pub struct Collateral {
    pub collateral_address: Address,
}

/// A price feed.
#[derive(Clone, Copy, Debug, PartialEq, Eq, Structural)]
pub struct Asset {
    pub price: Decimal,
    pub twap: Decimal,
    /// Slot of the last price update.
    pub last_update: u64,
}

/// A synthetic token and its supply figures.
#[derive(Clone, Copy, Debug, PartialEq, Eq, Structural)]
pub struct Synthetic {
    pub asset_index: u8,
    pub supply: Decimal,
    pub borrowed_supply: Decimal,
    pub swapline_supply: Decimal,
    pub max_supply: Decimal,
}

/// Price feeds and synthetics; synthetic 0 is the USD-pegged one.
#[derive(Clone, Debug)]
pub struct AssetsList {
    pub assets: Vec<Asset>,
    pub synthetics: Vec<Synthetic>,
}

impl AssetsList {
    /// Every synthetic refers to an existing price feed.
    pub open spec fn wf(&self) -> bool {
        forall|i: int|
            0 <= i < self.synthetics@.len() ==> (#[trigger] self.synthetics@[i]).asset_index
                < self.assets@.len()
    }

    pub fn append_asset(&mut self, asset: Asset)
        ensures
            final(self).assets@ == old(self).assets@.push(asset),
            final(self).synthetics@ == old(self).synthetics@,
    {
        self.assets.push(asset);
    }

    pub fn append_synthetic(&mut self, synthetic: Synthetic)
        ensures
            final(self).synthetics@ == old(self).synthetics@.push(synthetic),
            final(self).assets@ == old(self).assets@,
    {
        self.synthetics.push(synthetic);
    }
}

/// A collateral/synthetic pool.
#[derive(Clone, Copy, Debug, PartialEq, Eq, Structural)]
pub struct Vault {
    pub debt_interest_rate: Decimal,
    /// Product of all interest factors applied so far.
    pub accumulated_interest_rate: Decimal,
    pub accumulated_interest: Decimal,
    pub mint_amount: Decimal,
    pub max_borrow: Decimal,
    /// Timestamp of the last committed interest window.
    pub last_update: i64,
}

/// One user's position within a vault.
#[derive(Clone, Copy, Debug, PartialEq, Eq, Structural)]
pub struct VaultEntry {
    pub owner: Address,
    /// Amount owed by this position.
    pub synthetic_amount: Decimal,
    /// The vault's accumulated rate when this entry was last reconciled.
    pub last_accumulated_interest_rate: Decimal,
}

} // verus!
