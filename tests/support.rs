use exchange::account::{
    Address, Asset, AssetsList, Collateral, CollateralEntry, ExchangeAccount, Synthetic,
    UserStaking, Vault,
};
use exchange::decimal::Decimal;
use exchange::error::ErrorCode;
use exchange::utils::{
    check_feed_update, div_up, get_user_sny_collateral_balance, set_new_vault_mint_amount,
    set_synthetic_supply,
};

fn zero() -> Decimal {
    Decimal::new(0, 0)
}

fn address(n: u128) -> Address {
    Address { high: 0, low: n }
}

fn asset_updated_at(last_update: u64) -> Asset {
    Asset { price: zero(), twap: zero(), last_update }
}

fn synthetic_with(supply: Decimal, max_supply: Decimal) -> Synthetic {
    Synthetic {
        asset_index: 0,
        supply,
        borrowed_supply: zero(),
        swapline_supply: zero(),
        max_supply,
    }
}

fn empty_account() -> ExchangeAccount {
    ExchangeAccount {
        debt_shares: 0,
        collaterals: vec![],
        user_staking_data: UserStaking {
            amount_to_claim: zero(),
            finished_round_points: 0,
            current_round_points: 0,
            next_round_points: 0,
            last_update: 0,
        },
    }
}

fn entry(collateral_address: Address, amount: u64) -> CollateralEntry {
    CollateralEntry { amount, collateral_address }
}

#[test]
fn test_check_feed_update() {
    let mut list = AssetsList { assets: vec![], synthetics: vec![] };
    list.append_asset(asset_updated_at(10));
    list.append_asset(asset_updated_at(10));

    // Outdated
    assert!(check_feed_update(&list.assets, 0, 1, 10, 100).is_err());
    // Outdated a little
    assert!(check_feed_update(&list.assets, 0, 1, 10, 21).is_err());
    // On the limit
    assert!(check_feed_update(&list.assets, 0, 1, 10, 20).is_ok());
    // No tolerance
    assert!(check_feed_update(&list.assets, 0, 1, 0, 10).is_ok());
}

#[test]
fn check_feed_update_looks_at_both_assets() {
    let assets = vec![asset_updated_at(50), asset_updated_at(10)];
    assert_eq!(check_feed_update(&assets, 0, 1, 5, 50), Err(ErrorCode::OutdatedOracle));
    assert_eq!(check_feed_update(&assets, 1, 0, 5, 50), Err(ErrorCode::OutdatedOracle));
    assert_eq!(check_feed_update(&assets, 0, 0, 5, 50), Ok(()));
    // a delay longer than the slot count never makes a feed stale
    assert_eq!(check_feed_update(&assets, 1, 1, 100, 50), Ok(()));
}

#[test]
fn test_set_synthetic_supply() {
    // Regular
    {
        let scale = 6;
        let max_supply = Decimal::new(100, scale);
        let mut synthetic = synthetic_with(Decimal::new(10, scale), max_supply);
        let new_supply = Decimal::new(50, scale);
        let result = set_synthetic_supply(&mut synthetic, new_supply);
        assert!(result.is_ok());
        assert_eq!({ synthetic.max_supply }, max_supply);
        assert_eq!({ synthetic.supply }, new_supply);
    }
    // Up to limit
    {
        let scale = 7;
        let max_supply = Decimal::new(100, scale);
        let mut synthetic = synthetic_with(Decimal::new(10, scale), max_supply);

        let result = set_synthetic_supply(&mut synthetic, max_supply);
        assert!(result.is_ok());
        assert_eq!({ synthetic.supply }, max_supply);
    }
    // Over limit
    {
        let scale = 8;
        let mut synthetic = synthetic_with(Decimal::new(10, scale), Decimal::new(100, scale));
        let result = set_synthetic_supply(&mut synthetic, Decimal::new(101, scale));
        assert!(result.is_err());
    }
}

#[test]
fn set_synthetic_supply_errors_leave_supply() {
    let mut synthetic = synthetic_with(Decimal::new(10, 6), Decimal::new(100, 6));
    assert_eq!(
        set_synthetic_supply(&mut synthetic, Decimal::new(101, 6)),
        Err(ErrorCode::MaxSupply)
    );
    assert_eq!(
        set_synthetic_supply(&mut synthetic, Decimal::new(50, 7)),
        Err(ErrorCode::DifferentScale)
    );
    assert_eq!(synthetic.supply, Decimal::new(10, 6));
}

#[test]
fn set_new_vault_mint_amount_respects_borrow_limit() {
    let mut vault = Vault {
        debt_interest_rate: zero(),
        accumulated_interest_rate: zero(),
        accumulated_interest: zero(),
        mint_amount: Decimal::new(1, 6),
        max_borrow: Decimal::new(100, 6),
        last_update: 0,
    };
    assert_eq!(set_new_vault_mint_amount(&mut vault, Decimal::new(100, 6)), Ok(()));
    assert_eq!(vault.mint_amount, Decimal::new(100, 6));
    assert_eq!(
        set_new_vault_mint_amount(&mut vault, Decimal::new(101, 6)),
        Err(ErrorCode::VaultBorrowLimit)
    );
    assert_eq!(
        set_new_vault_mint_amount(&mut vault, Decimal::new(5, 8)),
        Err(ErrorCode::DifferentScale)
    );
    assert_eq!(vault.mint_amount, Decimal::new(100, 6));
}

#[test]
fn test_get_user_sny_collateral_balance() {
    let sny_address = address(1);
    let sny_asset = Collateral { collateral_address: sny_address };

    // Empty list
    {
        let exchange_account = empty_account();

        let amount = get_user_sny_collateral_balance(&exchange_account, &sny_asset);
        assert_eq!(amount, Decimal::from_sny(0))
    }
    // With other assets
    {
        let mut exchange_account = empty_account();
        exchange_account.append(entry(address(2), 100));
        exchange_account.append(entry(sny_address, 100));
        exchange_account.append(entry(address(3), 100));

        let amount = get_user_sny_collateral_balance(&exchange_account, &sny_asset);
        assert_eq!(amount, Decimal::from_sny(100))
    }
    // Without SNY
    {
        let mut exchange_account = empty_account();
        exchange_account.append(entry(address(4), 100));
        exchange_account.append(entry(address(5), 100));

        let amount = get_user_sny_collateral_balance(&exchange_account, &sny_asset);
        assert_eq!(amount, Decimal::from_sny(0))
    }
}

#[test]
fn collateral_balance_takes_the_first_entry() {
    let sny_asset = Collateral { collateral_address: address(9) };
    let mut exchange_account = empty_account();
    exchange_account.append(entry(address(8), 1));
    exchange_account.append(entry(address(9), 42));
    exchange_account.append(entry(address(9), 7));
    assert_eq!(
        get_user_sny_collateral_balance(&exchange_account, &sny_asset),
        Decimal::new(42, 6)
    );
}

#[test]
fn div_up_rounds_up() {
    assert_eq!(div_up(10, 5), 2);
    assert_eq!(div_up(11, 5), 3);
    assert_eq!(div_up(0, 5), 0);
    assert_eq!(div_up(1, 1), 1);
}
