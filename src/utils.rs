use vstd::prelude::*;

use vstd::arithmetic::div_mod::{lemma_fundamental_div_mod, lemma_fundamental_div_mod_converse};

use crate::account::{
    Address, Asset, AssetsList, Collateral, CollateralEntry, ExchangeAccount, Staking, StakingRound,
    State, Synthetic, UserStaking, Vault, VaultEntry,
};
use crate::decimal::{ceil_div, Add, Compare, Decimal, Div, Mul, MulUp, PowAccuracy, Sub, SNY_SCALE, XUSD_SCALE};
use crate::math::{
    all_fresh, calculate_compounded_interest, calculate_debt, calculate_minute_interest_rate,
    compounded_interest, compounded_interest_ok, debt_ok, debt_sum, growth_factor,
    growth_factor_ok, lemma_growth_factor_at_least_one, lemma_interest_one, minute_rate,
};
use crate::error::ErrorCode;

verus! {

/// An asset's price is stale at `slot`: its last update is older than
/// `slot - max_delay`.
pub open spec fn is_outdated(asset: Asset, max_delay: u32, slot: u64) -> bool {
    asset.last_update + max_delay < slot
}

/// Fails with `OutdatedOracle` when either of the two assets is stale.
pub fn check_feed_update(
    assets: &[Asset],
    index_a: usize,
    index_b: usize,
    max_delay: u32,
    slot: u64,
) -> (r: Result<(), ErrorCode>)
    requires
        index_a < assets@.len(),
        index_b < assets@.len(),
    ensures
        r == (if is_outdated(assets@[index_a as int], max_delay, slot) || is_outdated(
            assets@[index_b as int],
            max_delay,
            slot,
        ) {
            Err(ErrorCode::OutdatedOracle)
        } else {
            Ok::<(), ErrorCode>(())
        }),
{
    if slot > max_delay as u64 {
        let oldest = slot - max_delay as u64;
        if assets[index_a].last_update < oldest {
            return Err(ErrorCode::OutdatedOracle);
        }
        if assets[index_b].last_update < oldest {
            return Err(ErrorCode::OutdatedOracle);
        }
    }
    Ok(())
}

/// `a / b` rounded up.
pub fn div_up(a: u128, b: u128) -> (r: u128)
    requires
        b > 0,
        a + b - 1 <= u128::MAX,
    ensures
        r == ceil_div(a as int, b as int),
{
    (a + (b - 1)) / b
}

/// `d = ceil(a / b)` is the least `d` with `d * b >= a`.
proof fn lemma_ceil_div_bounds(a: int, b: int)
    requires
        a >= 1,
        b >= 1,
    ensures
        ceil_div(a, b) >= 1,
        ceil_div(a, b) * b >= a,
        (ceil_div(a, b) - 1) * b < a,
{
    let c = a + b - 1;
    lemma_fundamental_div_mod(c, b);
    let d = c / b;
    assert(d * b == b * d) by (nonlinear_arith);
    assert((d - 1) * b == d * b - b) by (nonlinear_arith);
    if d < 1 {
        assert(d * b <= 0) by (nonlinear_arith)
            requires
                d < 1,
                b >= 1,
        ;
    }
}

/// Number of round lengths by which `slot` is past the start of the next round,
/// rounded up.
pub open spec fn round_diff(staking: Staking, slot: u64) -> int {
    ceil_div(slot - staking.next_round.start, staking.round_length as int)
}

/// A fresh round starting `k` round lengths after the current next round.
pub open spec fn fresh_round(state: State, k: int) -> StakingRound {
    StakingRound {
        start: (state.staking.next_round.start + k * state.staking.round_length) as u64,
        amount: state.staking.amount_per_round,
        all_points: state.debt_shares,
    }
}

/// The staking pipeline advanced to `slot`.
pub open spec fn rotated(state: State, slot: u64) -> State {
    let s = state.staking;
    if slot <= s.next_round.start {
        state
    } else {
        let d = round_diff(s, slot);
        let staking = if d == 1 {
            Staking {
                finished_round: s.current_round,
                current_round: s.next_round,
                next_round: fresh_round(state, 1),
                ..s
            }
        } else if d == 2 {
            Staking {
                finished_round: s.next_round,
                current_round: fresh_round(state, 1),
                next_round: fresh_round(state, 2),
                ..s
            }
        } else {
            Staking {
                finished_round: fresh_round(state, d - 2),
                current_round: fresh_round(state, d - 1),
                next_round: fresh_round(state, d),
                ..s
            }
        };
        State { staking, ..state }
    }
}

/// Whether rotating to `slot` stays within the integer widths of the rounds.
pub open spec fn can_rotate(state: State, slot: u64) -> bool {
    let s = state.staking;
    slot > s.next_round.start ==> {
        &&& s.round_length > 0
        &&& s.round_length * round_diff(s, slot) <= u32::MAX
        &&& s.next_round.start + s.round_length * round_diff(s, slot) <= u64::MAX
    }
}

/// Advances the finished/current/next rounds by the number of round lengths
/// elapsed since the next round started.
pub fn adjust_staking_rounds(state: &mut State, slot: u64)
    requires
        can_rotate(*old(state), slot),
    ensures
        *final(state) == rotated(*old(state), slot),
        slot > old(state).staking.next_round.start ==> {
            &&& final(state).staking.current_round.start < slot
            &&& slot <= final(state).staking.next_round.start
        },
{
    if slot <= state.staking.next_round.start {
        return;
    }
    let ghost d = round_diff(state.staking, slot);
    let slot_diff = slot - state.staking.next_round.start;
    let len = state.staking.round_length;
    proof {
        lemma_ceil_div_bounds(slot_diff as int, len as int);
        assert(d <= len * d) by (nonlinear_arith)
            requires
                len >= 1,
                d >= 1,
        ;
    }
    let round_diff = div_up(slot_diff as u128, len as u128) as u32;
    let start = state.staking.next_round.start;
    let all_points = state.debt_shares;
    let amount = state.staking.amount_per_round;
    if round_diff == 1 {
        state.staking.finished_round = state.staking.current_round;
        state.staking.current_round = state.staking.next_round;
        state.staking.next_round = StakingRound { start: start + len as u64, all_points, amount };
    } else if round_diff == 2 {
        proof {
            assert(len * 2 == len * d);
        }
        state.staking.finished_round = state.staking.next_round;
        state.staking.current_round = StakingRound { start: start + len as u64, all_points, amount };
        state.staking.next_round = StakingRound {
            start: start + (len * 2) as u64,
            all_points,
            amount,
        };
    } else {
        proof {
            assert(len * (d - 2) <= len * d && len * (d - 1) <= len * d && 0 <= len * (d - 2))
                by (nonlinear_arith)
                requires
                    len >= 1,
                    d >= 3,
            ;
            assert((d - 1) * len == len * (d - 1)) by (nonlinear_arith);
        }
        state.staking.finished_round = StakingRound {
            start: start + (len * (round_diff - 2)) as u64,
            all_points,
            amount,
        };
        state.staking.current_round = StakingRound {
            start: start + (len * (round_diff - 1)) as u64,
            all_points,
            amount,
        };
        state.staking.next_round = StakingRound {
            start: start + (len * round_diff) as u64,
            all_points,
            amount,
        };
    }
}

/// Rotating a pipeline whose rounds are spaced by the configured round length
/// leaves them spaced by that length, however many rounds were skipped.
pub proof fn lemma_rotation_keeps_rounds_contiguous(state: State, slot: u64)
    requires
        can_rotate(state, slot),
        state.staking.contiguous(state.staking.round_length as int),
    ensures
        rotated(state, slot).staking.contiguous(state.staking.round_length as int),
{
    let s = state.staking;
    if slot > s.next_round.start {
        let d = round_diff(s, slot);
        let len = s.round_length as int;
        lemma_ceil_div_bounds(slot - s.next_round.start, len);
        assert(len <= len * d) by (nonlinear_arith)
            requires
                len >= 1,
                d >= 1,
        ;
        if d >= 3 {
            assert((d - 2) * len + len == (d - 1) * len && (d - 1) * len + len == d * len
                && 0 <= (d - 2) * len && d * len == len * d) by (nonlinear_arith)
                requires
                    d >= 3,
                    len >= 1,
            ;
        } else if d == 2 {
            assert(2 * len == len * d);
        }
    }
}

/// Rotating twice to the same slot changes nothing the second time.
pub proof fn lemma_rotation_idempotent(state: State, slot: u64)
    requires
        can_rotate(state, slot),
    ensures
        can_rotate(rotated(state, slot), slot),
        rotated(rotated(state, slot), slot) == rotated(state, slot),
{
    let s = state.staking;
    if slot > s.next_round.start {
        let d = round_diff(s, slot);
        let len = s.round_length as int;
        lemma_ceil_div_bounds(slot - s.next_round.start, len);
        assert(0 <= len * d && d * len == len * d) by (nonlinear_arith)
            requires
                len >= 1,
                d >= 1,
        ;
        if d == 1 {
            assert(len == len * d);
        } else if d == 2 {
            assert(2 * len == len * d);
        }
    }
}

/// The user's point snapshot brought up to the global rounds.
pub open spec fn reconciled_staking(data: UserStaking, debt_shares: u64, staking: Staking) -> UserStaking {
    if data.last_update >= staking.current_round.start {
        data
    } else if data.last_update < staking.finished_round.start {
        UserStaking {
            finished_round_points: debt_shares,
            current_round_points: debt_shares,
            next_round_points: debt_shares,
            last_update: (staking.current_round.start + 1) as u64,
            ..data
        }
    } else {
        UserStaking {
            finished_round_points: data.current_round_points,
            current_round_points: data.next_round_points,
            next_round_points: debt_shares,
            last_update: (staking.current_round.start + 1) as u64,
            ..data
        }
    }
}

/// Reconciles a user's reward points with the global staking rounds.
pub fn adjust_staking_account(exchange_account: &mut ExchangeAccount, staking: &Staking)
    requires
        old(exchange_account).user_staking_data.last_update < staking.current_round.start
            ==> staking.current_round.start < u64::MAX,
    ensures
        final(exchange_account).user_staking_data == reconciled_staking(
            old(exchange_account).user_staking_data,
            old(exchange_account).debt_shares,
            *staking,
        ),
        final(exchange_account).debt_shares == old(exchange_account).debt_shares,
        final(exchange_account).collaterals@ == old(exchange_account).collaterals@,
{
    let data = &mut exchange_account.user_staking_data;
    if data.last_update >= staking.current_round.start {
        return;
    } else if data.last_update < staking.finished_round.start {
        data.finished_round_points = exchange_account.debt_shares;
        data.current_round_points = exchange_account.debt_shares;
        data.next_round_points = exchange_account.debt_shares;
    } else {
        data.finished_round_points = data.current_round_points;
        data.current_round_points = data.next_round_points;
        data.next_round_points = exchange_account.debt_shares;
    }
    data.last_update = staking.current_round.start + 1;
}

/// Sets a synthetic's supply unless it would exceed the cap.
pub fn set_synthetic_supply(synthetic: &mut Synthetic, new_supply: Decimal) -> (r: Result<(), ErrorCode>)
    ensures
        new_supply.scale != old(synthetic).max_supply.scale ==> r == Err::<(), ErrorCode>(
            ErrorCode::DifferentScale,
        ),
        new_supply.scale == old(synthetic).max_supply.scale && new_supply.val
            > old(synthetic).max_supply.val ==> r == Err::<(), ErrorCode>(ErrorCode::MaxSupply),
        (r is Ok) <==> new_supply.scale == old(synthetic).max_supply.scale && new_supply.val
            <= old(synthetic).max_supply.val,
        (r is Ok) ==> *final(synthetic) == (Synthetic { supply: new_supply, ..*old(synthetic) }),
        (r is Err) ==> *final(synthetic) == *old(synthetic),
{
    match new_supply.gt(synthetic.max_supply) {
        Err(e) => Err(e),
        Ok(true) => Err(ErrorCode::MaxSupply),
        Ok(false) => {
            synthetic.supply = new_supply;
            Ok(())
        },
    }
}

/// Sets a vault's minted amount unless it would exceed the borrow limit.
pub fn set_new_vault_mint_amount(vault: &mut Vault, new_mint_amount: Decimal) -> (r: Result<(), ErrorCode>)
    ensures
        new_mint_amount.scale != old(vault).max_borrow.scale ==> r == Err::<(), ErrorCode>(
            ErrorCode::DifferentScale,
        ),
        new_mint_amount.scale == old(vault).max_borrow.scale && new_mint_amount.val
            > old(vault).max_borrow.val ==> r == Err::<(), ErrorCode>(ErrorCode::VaultBorrowLimit),
        (r is Ok) <==> new_mint_amount.scale == old(vault).max_borrow.scale
            && new_mint_amount.val <= old(vault).max_borrow.val,
        (r is Ok) ==> *final(vault) == (Vault { mint_amount: new_mint_amount, ..*old(vault) }),
        (r is Err) ==> *final(vault) == *old(vault),
{
    match vault.max_borrow.lt(new_mint_amount) {
        Err(e) => Err(e),
        Ok(true) => Err(ErrorCode::VaultBorrowLimit),
        Ok(false) => {
            vault.mint_amount = new_mint_amount;
            Ok(())
        },
    }
}

/// Index of the first entry held at `address`, if any.
pub open spec fn first_entry_at(entries: Seq<CollateralEntry>, address: Address) -> Option<int> {
    if exists|i: int| 0 <= i < entries.len() && entries[i].collateral_address == address {
        let i = choose|i: int|
            0 <= i < entries.len() && entries[i].collateral_address == address && forall|j: int|
                0 <= j < i ==> entries[j].collateral_address != address;
        Some(i)
    } else {
        None
    }
}

/// Amount of the first entry at `address`, or zero.
pub open spec fn sny_balance(entries: Seq<CollateralEntry>, address: Address) -> u64 {
    match first_entry_at(entries, address) {
        Some(i) => entries[i].amount,
        None => 0,
    }
}

/// The user's balance of the staking-token collateral: the amount of the first
/// entry at its address, or zero.
pub fn get_user_sny_collateral_balance(exchange_account: &ExchangeAccount, sny_asset: &Collateral) -> (r: Decimal)
    ensures
        r.scale == SNY_SCALE,
        r.val == sny_balance(exchange_account.collaterals@, sny_asset.collateral_address),
{
    let entries = &exchange_account.collaterals;
    let mut i: usize = 0;
    while i < entries.len()
        invariant
            i <= entries@.len(),
            entries@ == exchange_account.collaterals@,
            forall|j: int| 0 <= j < i ==> entries@[j].collateral_address != sny_asset.collateral_address,
        decreases entries@.len() - i,
    {
        if entries[i].collateral_address == sny_asset.collateral_address {
            proof {
                let idx = i as int;
                let a = sny_asset.collateral_address;
                let first = |k: int|
                    0 <= k < entries@.len() && entries@[k].collateral_address == a && forall|j: int|
                        0 <= j < k ==> entries@[j].collateral_address != a;
                assert(first(idx));
                let k = choose|k: int|
                    0 <= k < entries@.len() && entries@[k].collateral_address == a && forall|j: int|
                        0 <= j < k ==> entries@[j].collateral_address != a;
                assert(first(k));
                if k < idx {
                    assert(entries@[k].collateral_address != a);
                } else if k > idx {
                    assert(entries@[idx].collateral_address != a);
                }
                assert(first_entry_at(entries@, a) == Some(idx));
            }
            return Decimal::from_sny(entries[i].amount as u128);
        }
        i += 1;
    }
    Decimal::from_sny(0)
}

/// Length of one interest window, in seconds.
pub const ADJUSTMENT_PERIOD: i64 = 60;

/// Whole interest windows between `last` and `timestamp`; zero when fewer than one.
pub open spec fn elapsed_windows(last: i64, timestamp: i64) -> int {
    if timestamp - last >= ADJUSTMENT_PERIOD {
        (timestamp - last) / (ADJUSTMENT_PERIOD as int)
    } else {
        0
    }
}

/// After committing the elapsed windows, less than one window remains.
proof fn lemma_windows_committed(last: i64, timestamp: i64)
    requires
        elapsed_windows(last, timestamp) >= 1,
    ensures
        last + elapsed_windows(last, timestamp) * 60 <= timestamp,
        elapsed_windows(
            (last + elapsed_windows(last, timestamp) * 60) as i64,
            timestamp,
        ) == 0,
{
    lemma_fundamental_div_mod(timestamp - last, 60);
}

/// `d` increased by `x`, at its own scale.
pub open spec fn add_val(d: Decimal, x: int) -> Decimal {
    Decimal { val: (d.val + x) as u128, scale: d.scale }
}

/// Interest on the TWAP-valued debt over the elapsed windows.
pub open spec fn debt_interest(state: State, assets: Seq<Asset>, synthetics: Seq<Synthetic>, timestamp: i64) -> Decimal {
    compounded_interest(
        Decimal { val: debt_sum(assets, synthetics, synthetics.len(), true) as u128, scale: XUSD_SCALE },
        minute_rate(state.debt_interest_rate),
        elapsed_windows(state.last_debt_adjustment, timestamp) as nat,
    )
}

/// Whether debt interest is accrued without overflow.
pub open spec fn interest_debt_ok(state: State, assets: Seq<Asset>, synthetics: Seq<Synthetic>, timestamp: i64) -> bool {
    let w = elapsed_windows(state.last_debt_adjustment, timestamp);
    let c = debt_interest(state, assets, synthetics, timestamp);
    let total = Decimal { val: debt_sum(assets, synthetics, synthetics.len(), true) as u128, scale: XUSD_SCALE };
    &&& i64::MIN <= timestamp - state.last_debt_adjustment <= i64::MAX
    &&& w >= 1 ==> {
        &&& synthetics.len() > 0
        &&& debt_ok(assets, synthetics, true)
        &&& compounded_interest_ok(total, minute_rate(state.debt_interest_rate), w as nat)
        &&& synthetics[0].supply.scale == XUSD_SCALE
        &&& state.accumulated_debt_interest.scale == XUSD_SCALE
        &&& synthetics[0].supply.val + c.val <= u128::MAX
        &&& state.accumulated_debt_interest.val + c.val <= u128::MAX
    }
}

/// Whether the accrual goes ahead: a window has elapsed and every feed is fresh.
pub open spec fn debt_accrues(state: State, assets: Seq<Asset>, synthetics: Seq<Synthetic>, slot: u64, timestamp: i64) -> bool {
    elapsed_windows(state.last_debt_adjustment, timestamp) >= 1 && all_fresh(
        assets,
        synthetics,
        state.max_delay,
        slot,
    )
}

/// The state after debt interest accrual at `timestamp`.
pub open spec fn state_after_accrual(
    state: State,
    assets: Seq<Asset>,
    synthetics: Seq<Synthetic>,
    slot: u64,
    timestamp: i64,
) -> State {
    if debt_accrues(state, assets, synthetics, slot, timestamp) {
        let w = elapsed_windows(state.last_debt_adjustment, timestamp);
        State {
            accumulated_debt_interest: add_val(
                state.accumulated_debt_interest,
                debt_interest(state, assets, synthetics, timestamp).val as int,
            ),
            last_debt_adjustment: (state.last_debt_adjustment + w * ADJUSTMENT_PERIOD) as i64,
            ..state
        }
    } else {
        state
    }
}

/// The synthetics after debt interest accrual at `timestamp`: the interest is
/// minted into the USD synthetic.
pub open spec fn synthetics_after_accrual(
    state: State,
    assets: Seq<Asset>,
    synthetics: Seq<Synthetic>,
    slot: u64,
    timestamp: i64,
) -> Seq<Synthetic> {
    if debt_accrues(state, assets, synthetics, slot, timestamp) {
        let c = debt_interest(state, assets, synthetics, timestamp);
        synthetics.update(0, Synthetic { supply: add_val(synthetics[0].supply, c.val as int), ..synthetics[0] })
    } else {
        synthetics
    }
}

/// Mints the interest owed on the protocol's debt for every whole window
/// elapsed since the last adjustment, and commits those windows.
pub fn adjust_interest_debt(state: &mut State, assets_list: &mut AssetsList, slot: u64, timestamp: i64) -> (r: Result<(), ErrorCode>)
    requires
        interest_debt_ok(*old(state), old(assets_list).assets@, old(assets_list).synthetics@, timestamp),
    ensures
        *final(state) == state_after_accrual(
            *old(state),
            old(assets_list).assets@,
            old(assets_list).synthetics@,
            slot,
            timestamp,
        ),
        final(assets_list).synthetics@ == synthetics_after_accrual(
            *old(state),
            old(assets_list).assets@,
            old(assets_list).synthetics@,
            slot,
            timestamp,
        ),
        final(assets_list).assets@ == old(assets_list).assets@,
        (r is Err) <==> elapsed_windows(old(state).last_debt_adjustment, timestamp) >= 1 && !all_fresh(
            old(assets_list).assets@,
            old(assets_list).synthetics@,
            old(state).max_delay,
            slot,
        ),
        (r is Err) ==> r == Err::<(), ErrorCode>(ErrorCode::OutdatedOracle),
        (r is Ok) ==> elapsed_windows(final(state).last_debt_adjustment, timestamp) == 0,
        final(state).accumulated_debt_interest.val >= old(state).accumulated_debt_interest.val,
{
    let delta = timestamp - state.last_debt_adjustment;
    if delta < ADJUSTMENT_PERIOD {
        return Ok(());
    }
    let diff = delta / ADJUSTMENT_PERIOD;
    proof {
        lemma_windows_committed(state.last_debt_adjustment, timestamp);
    }
    let total_debt_twap = match calculate_debt(assets_list, slot, state.max_delay, true) {
        Ok(debt) => debt,
        Err(e) => {
            return Err(e);
        },
    };
    let minute_interest_rate = calculate_minute_interest_rate(state.debt_interest_rate);
    let compounded_interest = calculate_compounded_interest(
        total_debt_twap,
        minute_interest_rate,
        diff as u128,
    );
    let mut usd = assets_list.synthetics[0];
    usd.supply = usd.supply.add(compounded_interest).unwrap();
    assets_list.synthetics.set(0, usd);
    state.accumulated_debt_interest = state.accumulated_debt_interest.add(compounded_interest).unwrap();
    state.last_debt_adjustment = diff * ADJUSTMENT_PERIOD + state.last_debt_adjustment;
    Ok(())
}

/// Accrues debt interest, then values all synthetics at their spot prices.
pub fn calculate_debt_with_adjustment(
    state: &mut State,
    assets_list: &mut AssetsList,
    slot: u64,
    timestamp: i64,
) -> (r: Result<Decimal, ErrorCode>)
    requires
        interest_debt_ok(*old(state), old(assets_list).assets@, old(assets_list).synthetics@, timestamp),
        debt_ok(
            old(assets_list).assets@,
            synthetics_after_accrual(
                *old(state),
                old(assets_list).assets@,
                old(assets_list).synthetics@,
                slot,
                timestamp,
            ),
            false,
        ),
    ensures
        *final(state) == state_after_accrual(
            *old(state),
            old(assets_list).assets@,
            old(assets_list).synthetics@,
            slot,
            timestamp,
        ),
        final(assets_list).synthetics@ == synthetics_after_accrual(
            *old(state),
            old(assets_list).assets@,
            old(assets_list).synthetics@,
            slot,
            timestamp,
        ),
        final(assets_list).assets@ == old(assets_list).assets@,
        all_fresh(old(assets_list).assets@, old(assets_list).synthetics@, old(state).max_delay, slot)
            ==> r == Ok::<Decimal, ErrorCode>(
            Decimal {
                val: debt_sum(
                    final(assets_list).assets@,
                    final(assets_list).synthetics@,
                    final(assets_list).synthetics@.len(),
                    false,
                ) as u128,
                scale: XUSD_SCALE,
            },
        ),
        !all_fresh(old(assets_list).assets@, old(assets_list).synthetics@, old(state).max_delay, slot)
            ==> r == Err::<Decimal, ErrorCode>(ErrorCode::OutdatedOracle),
{
    let ghost synthetics = assets_list.synthetics@;
    let ghost assets = assets_list.assets@;
    let adjusted = adjust_interest_debt(state, assets_list, slot, timestamp);
    proof {
        let after = assets_list.synthetics@;
        assert(after.len() == synthetics.len());
        assert forall|i: int| 0 <= i < after.len() implies (#[trigger] after[i]).asset_index
            == synthetics[i].asset_index by {}
        if all_fresh(assets, after, state.max_delay, slot) {
            assert forall|i: int| 0 <= i < synthetics.len() implies !is_outdated(
                assets[(#[trigger] synthetics[i]).asset_index as int],
                state.max_delay,
                slot,
            ) by {
                assert(after[i].asset_index == synthetics[i].asset_index);
            }
        }
    }
    match adjusted {
        Err(e) => Err(e),
        Ok(()) => calculate_debt(assets_list, slot, state.max_delay, false),
    }
}

/// Accruing debt interest twice at the same timestamp changes nothing the
/// second time.
pub proof fn lemma_debt_accrual_idempotent(
    state: State,
    assets: Seq<Asset>,
    synthetics: Seq<Synthetic>,
    slot: u64,
    timestamp: i64,
)
    requires
        interest_debt_ok(state, assets, synthetics, timestamp),
    ensures
        state_after_accrual(
            state_after_accrual(state, assets, synthetics, slot, timestamp),
            assets,
            synthetics_after_accrual(state, assets, synthetics, slot, timestamp),
            slot,
            timestamp,
        ) == state_after_accrual(state, assets, synthetics, slot, timestamp),
        synthetics_after_accrual(
            state_after_accrual(state, assets, synthetics, slot, timestamp),
            assets,
            synthetics_after_accrual(state, assets, synthetics, slot, timestamp),
            slot,
            timestamp,
        ) == synthetics_after_accrual(state, assets, synthetics, slot, timestamp),
{
    if debt_accrues(state, assets, synthetics, slot, timestamp) {
        lemma_windows_committed(state.last_debt_adjustment, timestamp);
    }
}

/// The per-window growth factor of a vault over the windows elapsed at `timestamp`.
pub open spec fn vault_growth(vault: Vault, timestamp: i64) -> Decimal {
    growth_factor(
        minute_rate(vault.debt_interest_rate),
        elapsed_windows(vault.last_update, timestamp) as nat,
    )
}

/// The vault with its interest multiplier advanced to `timestamp`.
pub open spec fn accrued_vault(vault: Vault, timestamp: i64) -> Vault {
    let w = elapsed_windows(vault.last_update, timestamp);
    if w >= 1 {
        Vault {
            accumulated_interest_rate: vault.accumulated_interest_rate.spec_mul(
                vault_growth(vault, timestamp),
            ),
            last_update: (vault.last_update + w * ADJUSTMENT_PERIOD) as i64,
            ..vault
        }
    } else {
        vault
    }
}

/// Whether the vault's multiplier is advanced without overflow.
pub open spec fn vault_rate_ok(vault: Vault, timestamp: i64) -> bool {
    let w = elapsed_windows(vault.last_update, timestamp);
    &&& i64::MIN <= timestamp - vault.last_update <= i64::MAX
    &&& w >= 1 ==> {
        &&& growth_factor_ok(minute_rate(vault.debt_interest_rate), w as nat)
        &&& vault.accumulated_interest_rate.mul_ok(vault_growth(vault, timestamp))
    }
}

/// Multiplies the vault's accumulated interest rate by the growth over every
/// whole window elapsed since its last update, and commits those windows.
pub fn adjust_vault_interest_rate(vault: &mut Vault, timestamp: i64)
    requires
        vault_rate_ok(*old(vault), timestamp),
    ensures
        *final(vault) == accrued_vault(*old(vault), timestamp),
        elapsed_windows(final(vault).last_update, timestamp) == 0,
        final(vault).accumulated_interest_rate.scale == old(vault).accumulated_interest_rate.scale,
        final(vault).accumulated_interest_rate.val >= old(vault).accumulated_interest_rate.val,
{
    let delta = timestamp - vault.last_update;
    if delta < ADJUSTMENT_PERIOD {
        return;
    }
    let diff = delta / ADJUSTMENT_PERIOD;
    proof {
        lemma_windows_committed(vault.last_update, timestamp);
        lemma_interest_one();
        lemma_growth_factor_at_least_one(minute_rate(vault.debt_interest_rate), diff as nat);
        lemma_mul_by_at_least_one(vault.accumulated_interest_rate, vault_growth(*vault, timestamp));
    }
    let minute_interest_rate = calculate_minute_interest_rate(vault.debt_interest_rate);
    let one = Decimal::from_integer(1).to_interest_rate();
    let base = minute_interest_rate.add(one).unwrap();
    let time_period_interest = base.pow_with_accuracy(diff as u128);
    vault.accumulated_interest_rate = vault.accumulated_interest_rate.mul(time_period_interest);
    vault.last_update = diff * ADJUSTMENT_PERIOD + vault.last_update;
}

/// Multiplying by a factor of at least one never decreases a value.
proof fn lemma_mul_by_at_least_one(a: Decimal, factor: Decimal)
    requires
        factor.val >= factor.denom(),
        a.val * factor.val <= u128::MAX,
    ensures
        a.spec_mul(factor).val >= a.val,
{
    let d = factor.denom() as int;
    crate::decimal::lemma_pow10_positive(factor.scale as nat);
    assert(a.val * factor.val >= a.val * d) by (nonlinear_arith)
        requires
            factor.val >= d,
    ;
    lemma_fundamental_div_mod_converse(a.val * d, d, a.val as int, 0);
    vstd::arithmetic::div_mod::lemma_div_is_ordered(a.val * d, a.val * factor.val, d);
    assert(a.val * factor.val / d <= a.val * factor.val) by (nonlinear_arith)
        requires
            d >= 1,
            a.val * factor.val >= 0,
    ;
}

/// What an entry owes once its debt is scaled by the vault's growth since its
/// snapshot, rounded up.
pub open spec fn reconciled_amount(vault: Vault, entry: VaultEntry) -> Decimal {
    entry.synthetic_amount.spec_mul_up(
        vault.accumulated_interest_rate.spec_div(entry.last_accumulated_interest_rate),
    )
}

/// Whether reconciling `entry` against `vault` stays within range.
pub open spec fn reconcile_ok(vault: Vault, entry: VaultEntry, synthetic: Synthetic) -> bool {
    let ratio = vault.accumulated_interest_rate.spec_div(entry.last_accumulated_interest_rate);
    let amount = entry.synthetic_amount;
    let delta = reconciled_amount(vault, entry).val - amount.val;
    vault.accumulated_interest_rate != entry.last_accumulated_interest_rate ==> {
        &&& vault.accumulated_interest_rate.div_ok(entry.last_accumulated_interest_rate)
        &&& amount.mul_up_ok(ratio)
        &&& reconciled_amount(vault, entry).val >= amount.val
        &&& synthetic.supply.scale == amount.scale
        &&& synthetic.borrowed_supply.scale == amount.scale
        &&& vault.accumulated_interest.scale == amount.scale
        &&& vault.mint_amount.scale == amount.scale
        &&& synthetic.supply.val + delta <= u128::MAX
        &&& synthetic.borrowed_supply.val + delta <= u128::MAX
        &&& vault.accumulated_interest.val + delta <= u128::MAX
        &&& vault.mint_amount.val + delta <= u128::MAX
    }
}

/// Vault, entry and synthetic after the entry is reconciled with the vault's
/// current multiplier.
pub open spec fn reconciled(vault: Vault, entry: VaultEntry, synthetic: Synthetic) -> (Vault, VaultEntry, Synthetic) {
    if vault.accumulated_interest_rate == entry.last_accumulated_interest_rate {
        (vault, entry, synthetic)
    } else {
        let new_amount = reconciled_amount(vault, entry);
        let delta = new_amount.val - entry.synthetic_amount.val;
        (
            Vault {
                accumulated_interest: add_val(vault.accumulated_interest, delta),
                mint_amount: add_val(vault.mint_amount, delta),
                ..vault
            },
            VaultEntry {
                synthetic_amount: new_amount,
                last_accumulated_interest_rate: vault.accumulated_interest_rate,
                ..entry
            },
            Synthetic {
                supply: add_val(synthetic.supply, delta),
                borrowed_supply: add_val(synthetic.borrowed_supply, delta),
                ..synthetic
            },
        )
    }
}

/// The full two-stage reconciliation at `timestamp`.
pub open spec fn adjusted_vault_entry(vault: Vault, entry: VaultEntry, synthetic: Synthetic, timestamp: i64) -> (Vault, VaultEntry, Synthetic) {
    reconciled(accrued_vault(vault, timestamp), entry, synthetic)
}

pub open spec fn vault_entry_ok(vault: Vault, entry: VaultEntry, synthetic: Synthetic, timestamp: i64) -> bool {
    vault_rate_ok(vault, timestamp) && reconcile_ok(accrued_vault(vault, timestamp), entry, synthetic)
}

/// Advances the vault's multiplier, then charges the entry the interest
/// accrued since its snapshot, minting it into the synthetic's supply.
pub fn adjust_vault_entry_interest_debt(
    vault: &mut Vault,
    vault_entry: &mut VaultEntry,
    synthetic: &mut Synthetic,
    timestamp: i64,
)
    requires
        vault_entry_ok(*old(vault), *old(vault_entry), *old(synthetic), timestamp),
    ensures
        (*final(vault), *final(vault_entry), *final(synthetic)) == adjusted_vault_entry(
            *old(vault),
            *old(vault_entry),
            *old(synthetic),
            timestamp,
        ),
        final(vault_entry).synthetic_amount.val >= old(vault_entry).synthetic_amount.val,
        final(vault).accumulated_interest_rate.val >= old(vault).accumulated_interest_rate.val,
{
    adjust_vault_interest_rate(vault, timestamp);
    let interest_denominator = vault_entry.last_accumulated_interest_rate;
    let interest_nominator = vault.accumulated_interest_rate;

    if interest_nominator == interest_denominator {
        return;
    }
    let interest_debt_diff = interest_nominator.div(interest_denominator);
    let new_synthetic_amount = vault_entry.synthetic_amount.mul_up(interest_debt_diff);
    let additional_tokens = new_synthetic_amount.sub(vault_entry.synthetic_amount).unwrap();

    synthetic.supply = synthetic.supply.add(additional_tokens).unwrap();
    synthetic.borrowed_supply = synthetic.borrowed_supply.add(additional_tokens).unwrap();
    vault.accumulated_interest = vault.accumulated_interest.add(additional_tokens).unwrap();
    vault.mint_amount = vault.mint_amount.add(additional_tokens).unwrap();
    vault_entry.synthetic_amount = new_synthetic_amount;
    // committing the snapshot last keeps a failed reconciliation from being
    // charged twice
    vault_entry.last_accumulated_interest_rate = interest_nominator;
}

/// Reconciling a vault entry twice at the same timestamp changes nothing the
/// second time.
pub proof fn lemma_vault_entry_reconciliation_fixed_point(
    vault: Vault,
    entry: VaultEntry,
    synthetic: Synthetic,
    timestamp: i64,
)
    requires
        vault_entry_ok(vault, entry, synthetic, timestamp),
    ensures
        vault_entry_ok(
            adjusted_vault_entry(vault, entry, synthetic, timestamp).0,
            adjusted_vault_entry(vault, entry, synthetic, timestamp).1,
            adjusted_vault_entry(vault, entry, synthetic, timestamp).2,
            timestamp,
        ),
        adjusted_vault_entry(
            adjusted_vault_entry(vault, entry, synthetic, timestamp).0,
            adjusted_vault_entry(vault, entry, synthetic, timestamp).1,
            adjusted_vault_entry(vault, entry, synthetic, timestamp).2,
            timestamp,
        ) == adjusted_vault_entry(vault, entry, synthetic, timestamp),
{
    if elapsed_windows(vault.last_update, timestamp) >= 1 {
        lemma_windows_committed(vault.last_update, timestamp);
    }
}

} // verus!
