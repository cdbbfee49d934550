use vstd::prelude::*;

use vstd::arithmetic::div_mod::{lemma_div_is_ordered, lemma_fundamental_div_mod_converse};

use crate::account::{Asset, AssetsList, Synthetic};
use crate::decimal::{
    lemma_pow_steps_fits, pow10, pow_steps, Add, Decimal, MulUp, PowAccuracy, Sub, INTEREST_RATE_SCALE,
    XUSD_SCALE,
};
use crate::error::ErrorCode;
use crate::utils::is_outdated;

verus! {

/// Number of interest windows (minutes) in a year.
pub const MINUTES_IN_YEAR: u128 = 525600;

/// One, at the interest-rate scale.
pub open spec fn interest_one() -> Decimal {
    Decimal { val: pow10(INTEREST_RATE_SCALE as nat) as u128, scale: INTEREST_RATE_SCALE }
}

/// The per-window rate of an annualized rate, truncated.
pub open spec fn minute_rate(apr: Decimal) -> Decimal {
    Decimal { val: apr.val / MINUTES_IN_YEAR, scale: apr.scale }
}

/// `(1 + rate)^periods` at the interest-rate scale.
pub open spec fn growth_factor(rate: Decimal, periods: nat) -> Decimal {
    Decimal { val: (rate.val + interest_one().val) as u128, scale: INTEREST_RATE_SCALE }.spec_pow(periods)
}

/// Whether `growth_factor` is computed without overflow.
pub open spec fn growth_factor_ok(rate: Decimal, periods: nat) -> bool {
    &&& rate.scale == INTEREST_RATE_SCALE
    &&& rate.val + interest_one().val <= u128::MAX
    &&& Decimal { val: (rate.val + interest_one().val) as u128, scale: INTEREST_RATE_SCALE }.can_pow(periods)
}

/// `base * ((1 + rate)^periods - 1)`, rounded up, at `base`'s scale.
pub open spec fn compounded_interest(base: Decimal, rate: Decimal, periods: nat) -> Decimal {
    base.spec_mul_up(
        Decimal {
            val: (growth_factor(rate, periods).val - interest_one().val) as u128,
            scale: INTEREST_RATE_SCALE,
        },
    )
}

pub open spec fn compounded_interest_ok(base: Decimal, rate: Decimal, periods: nat) -> bool {
    &&& growth_factor_ok(rate, periods)
    &&& base.mul_up_ok(
        Decimal {
            val: (growth_factor(rate, periods).val - interest_one().val) as u128,
            scale: INTEREST_RATE_SCALE,
        },
    )
}

pub proof fn lemma_interest_one()
    ensures
        interest_one().val == 1_000_000_000_000_000_000,
        pow10(18) == 1_000_000_000_000_000_000,
{
    crate::decimal::lemma_pow10_fits(18);
    assert(pow10(18) == 1_000_000_000_000_000_000) by {
        reveal_with_fuel(pow10, 19);
    }
}

/// Truncated squaring never takes a value that starts at or above one below one.
proof fn lemma_pow_steps_at_least_one(result: nat, base: nat, exp: nat, d: nat)
    requires
        d > 0,
        result >= d,
        base >= d,
    ensures
        pow_steps(result, base, exp, d) >= d,
    decreases exp,
{
    if exp > 0 {
        assert(result * base >= result * d && base * base >= base * d) by (nonlinear_arith)
            requires
                base >= d,
                result >= d,
                d > 0,
        ;
        lemma_fundamental_div_mod_converse((result * d) as int, d as int, result as int, 0);
        lemma_fundamental_div_mod_converse((base * d) as int, d as int, base as int, 0);
        lemma_div_is_ordered((result * d) as int, (result * base) as int, d as int);
        lemma_div_is_ordered((base * d) as int, (base * base) as int, d as int);
        let next = if exp % 2 == 1 { result * base / d } else { result };
        lemma_pow_steps_at_least_one(next, base * base / d, exp / 2, d);
    }
}

/// A growth factor is at least one.
pub proof fn lemma_growth_factor_at_least_one(rate: Decimal, periods: nat)
    requires
        growth_factor_ok(rate, periods),
    ensures
        growth_factor(rate, periods).val >= interest_one().val,
{
    lemma_interest_one();
    let b = Decimal { val: (rate.val + interest_one().val) as u128, scale: INTEREST_RATE_SCALE };
    lemma_pow_steps_at_least_one(b.denom(), b.val as nat, periods, b.denom());
    lemma_pow_steps_fits(b.denom(), b.val as nat, periods, b.denom());
}

pub fn calculate_minute_interest_rate(apr: Decimal) -> (r: Decimal)
    ensures
        r == minute_rate(apr),
{
    Decimal::new(apr.val / MINUTES_IN_YEAR, apr.scale)
}

/// Interest on `base_value` compounded over `periods_number` periods.
pub fn calculate_compounded_interest(
    base_value: Decimal,
    periodic_interest_rate: Decimal,
    periods_number: u128,
) -> (r: Decimal)
    requires
        compounded_interest_ok(base_value, periodic_interest_rate, periods_number as nat),
    ensures
        r == compounded_interest(base_value, periodic_interest_rate, periods_number as nat),
{
    proof {
        lemma_interest_one();
        lemma_growth_factor_at_least_one(periodic_interest_rate, periods_number as nat);
    }
    let one = Decimal::from_integer(1).to_interest_rate();
    let interest = periodic_interest_rate.add(one).unwrap();
    let compounded = interest.pow_with_accuracy(periods_number).sub(one).unwrap();
    base_value.mul_up(compounded)
}

/// The part of a synthetic's supply that is owed by the debt pool: neither
/// borrowed from vaults nor issued through swaplines.
pub open spec fn debt_pool_supply(s: Synthetic) -> Decimal {
    Decimal {
        val: (s.supply.val - s.borrowed_supply.val - s.swapline_supply.val) as u128,
        scale: s.supply.scale,
    }
}

pub open spec fn feed_price(asset: Asset, twap: bool) -> Decimal {
    if twap {
        asset.twap
    } else {
        asset.price
    }
}

/// USD value of synthetic `i`'s debt-pool supply, rounded up.
pub open spec fn synthetic_debt(assets: Seq<Asset>, synthetics: Seq<Synthetic>, i: int, twap: bool) -> Decimal {
    let s = synthetics[i];
    let price = feed_price(assets[s.asset_index as int], twap);
    price.spec_mul_up(debt_pool_supply(s)).spec_to_scale_up(XUSD_SCALE)
}

/// Total USD value of the first `n` synthetics.
pub open spec fn debt_sum(assets: Seq<Asset>, synthetics: Seq<Synthetic>, n: nat, twap: bool) -> nat
    decreases n,
{
    if n == 0 {
        0
    } else {
        debt_sum(assets, synthetics, (n - 1) as nat, twap) + synthetic_debt(
            assets,
            synthetics,
            n - 1,
            twap,
        ).val as nat
    }
}

/// Whether synthetic `i`'s value is computed without failure.
pub open spec fn synthetic_debt_ok(assets: Seq<Asset>, synthetics: Seq<Synthetic>, i: int, twap: bool) -> bool {
    let s = synthetics[i];
    let price = feed_price(assets[s.asset_index as int], twap);
    &&& s.asset_index < assets.len()
    &&& s.borrowed_supply.scale == s.supply.scale
    &&& s.swapline_supply.scale == s.supply.scale
    &&& s.supply.val >= s.borrowed_supply.val + s.swapline_supply.val
    &&& price.mul_up_ok(debt_pool_supply(s))
    &&& price.spec_mul_up(debt_pool_supply(s)).can_rescale_up(XUSD_SCALE)
}

/// Whether the total debt is computed without failure.
pub open spec fn debt_ok(assets: Seq<Asset>, synthetics: Seq<Synthetic>, twap: bool) -> bool {
    &&& forall|i: int| 0 <= i < synthetics.len() ==> synthetic_debt_ok(assets, synthetics, i, twap)
    &&& debt_sum(assets, synthetics, synthetics.len(), twap) <= u128::MAX
}

/// Every synthetic's price feed is fresh at `slot`.
pub open spec fn all_fresh(assets: Seq<Asset>, synthetics: Seq<Synthetic>, max_delay: u32, slot: u64) -> bool {
    forall|i: int|
        0 <= i < synthetics.len() ==> !is_outdated(
            assets[(#[trigger] synthetics[i]).asset_index as int],
            max_delay,
            slot,
        )
}

proof fn lemma_debt_sum_monotonic(assets: Seq<Asset>, synthetics: Seq<Synthetic>, m: nat, n: nat, twap: bool)
    requires
        m <= n,
    ensures
        debt_sum(assets, synthetics, m, twap) <= debt_sum(assets, synthetics, n, twap),
    decreases n,
{
    if m < n {
        lemma_debt_sum_monotonic(assets, synthetics, m, (n - 1) as nat, twap);
    }
}

/// Total USD value of all synthetics' debt-pool supplies, at their TWAP
/// (`twap`) or spot prices; fails when a price feed is stale.
pub fn calculate_debt(assets_list: &AssetsList, slot: u64, max_delay: u32, twap: bool) -> (r: Result<Decimal, ErrorCode>)
    requires
        debt_ok(assets_list.assets@, assets_list.synthetics@, twap),
    ensures
        all_fresh(assets_list.assets@, assets_list.synthetics@, max_delay, slot) ==> r == Ok::<
            Decimal,
            ErrorCode,
        >(
            Decimal {
                val: debt_sum(
                    assets_list.assets@,
                    assets_list.synthetics@,
                    assets_list.synthetics@.len(),
                    twap,
                ) as u128,
                scale: XUSD_SCALE,
            },
        ),
        !all_fresh(assets_list.assets@, assets_list.synthetics@, max_delay, slot) ==> r == Err::<
            Decimal,
            ErrorCode,
        >(ErrorCode::OutdatedOracle),
{
    let ghost assets = assets_list.assets@;
    let ghost synthetics = assets_list.synthetics@;
    let mut debt = Decimal::from_usd(0);
    let mut i: usize = 0;
    while i < assets_list.synthetics.len()
        invariant
            assets == assets_list.assets@,
            synthetics == assets_list.synthetics@,
            i <= synthetics.len(),
            debt_ok(assets, synthetics, twap),
            debt.scale == XUSD_SCALE,
            debt.val == debt_sum(assets, synthetics, i as nat, twap),
            forall|j: int|
                0 <= j < i ==> !is_outdated(
                    assets[(#[trigger] synthetics[j]).asset_index as int],
                    max_delay,
                    slot,
                ),
        decreases synthetics.len() - i,
    {
        let synthetic = assets_list.synthetics[i];
        assert(synthetic_debt_ok(assets, synthetics, i as int, twap));
        let asset = assets_list.assets[synthetic.asset_index as usize];
        if slot > max_delay as u64 && asset.last_update < slot - max_delay as u64 {
            assert(is_outdated(assets[(synthetics[i as int]).asset_index as int], max_delay, slot));
            return Err(ErrorCode::OutdatedOracle);
        }
        let price = if twap {
            asset.twap
        } else {
            asset.price
        };
        let pool = synthetic.supply.sub(synthetic.borrowed_supply).unwrap().sub(
            synthetic.swapline_supply,
        ).unwrap();
        let value = price.mul_up(pool).to_usd_up();
        proof {
            lemma_debt_sum_monotonic(assets, synthetics, (i + 1) as nat, synthetics.len(), twap);
        }
        debt = debt.add(value).unwrap();
        i += 1;
    }
    Ok(debt)
}

} // verus!
