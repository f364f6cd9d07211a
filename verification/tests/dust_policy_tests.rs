use std::sync::Arc;

use assets_registry::registry::Pallet;
use assets_registry::rpc::AssetsRegistryPallet;
use assets_registry::types::{Asset, Location};
use assets_registry::xcm_config::{
    AccountIdToMultiLocation, CurrencyIdConvert, CustomAssetTrap, ToTreasury, XcmAsset,
};

fn loc(parents: u8, interior: u64) -> Location {
    Location { parents, interior }
}

fn registry_with(id: u64, deposit: u128, location: Location) -> Pallet {
    let mut p = Pallet::new();
    let a = Asset {
        asset_id: id,
        decimals: 10,
        name: b"token".to_vec(),
        existential_deposit: deposit,
        location: Some(location),
    };
    assert_eq!(p.do_register_asset(a), Ok(()));
    p
}

#[test]
fn dust_amount_goes_to_treasury_not_trap() {
    let l = loc(1, 2000);
    let p = registry_with(7, 1000, l);
    let mut trap = CustomAssetTrap::new();
    let origin = loc(1, 0);
    trap.drop_assets(&p, &origin, vec![XcmAsset::Fungible { location: l, amount: 500 }]);
    assert_eq!(trap.treasury().balance_of(7), 500);
    assert!(trap.trapped().is_empty());
}

#[test]
fn viable_amount_is_trapped_not_captured() {
    let l = loc(1, 2000);
    let p = registry_with(7, 1000, l);
    let mut trap = CustomAssetTrap::new();
    let origin = loc(1, 0);
    let returned = XcmAsset::Fungible { location: l, amount: 2000 };
    trap.drop_assets(&p, &origin, vec![returned]);
    assert_eq!(trap.treasury().balance_of(7), 0);
    assert_eq!(trap.trapped().as_slice(), &[(origin, returned)]);
}

#[test]
fn amount_equal_to_deposit_is_not_dust() {
    let l = loc(1, 2000);
    let p = registry_with(7, 1000, l);
    let mut trap = CustomAssetTrap::new();
    let origin = loc(1, 0);
    trap.drop_assets(&p, &origin, vec![XcmAsset::Fungible { location: l, amount: 1000 }]);
    assert_eq!(trap.treasury().balance_of(7), 0);
    assert_eq!(trap.trapped().len(), 1);
}

#[test]
fn unresolved_location_is_always_trapped() {
    let p = registry_with(7, 1000, loc(1, 2000));
    let mut trap = CustomAssetTrap::new();
    let origin = loc(1, 0);
    let unknown = XcmAsset::Fungible { location: loc(1, 9999), amount: 1 };
    trap.drop_assets(&p, &origin, vec![unknown]);
    assert_eq!(trap.treasury().balance_of(7), 0);
    assert_eq!(trap.trapped().as_slice(), &[(origin, unknown)]);
}

#[test]
fn non_fungible_forms_are_ignored() {
    let p = registry_with(7, 1000, loc(1, 2000));
    let mut trap = CustomAssetTrap::new();
    trap.drop_assets(&p, &loc(1, 0), vec![XcmAsset::Other]);
    assert_eq!(trap.treasury().balance_of(7), 0);
    assert!(trap.trapped().is_empty());
}

#[test]
fn mixed_batch_is_split_between_treasury_and_trap() {
    let l = loc(1, 2000);
    let p = registry_with(7, 1000, l);
    let mut trap = CustomAssetTrap::new();
    let origin = loc(1, 0);
    let dust_a = XcmAsset::Fungible { location: l, amount: 300 };
    let dust_b = XcmAsset::Fungible { location: l, amount: 200 };
    let viable = XcmAsset::Fungible { location: l, amount: 1500 };
    let unknown = XcmAsset::Fungible { location: loc(2, 2), amount: 400 };
    trap.drop_assets(&p, &origin, vec![dust_a, viable, XcmAsset::Other, unknown, dust_b]);
    assert_eq!(trap.treasury().balance_of(7), 500);
    assert_eq!(trap.trapped().as_slice(), &[(origin, viable), (origin, unknown)]);
}

#[test]
fn take_revenue_accumulates_per_asset() {
    let l = loc(1, 2000);
    let p = registry_with(7, 1000, l);
    let mut treasury = ToTreasury::new();
    assert_eq!(treasury.balance_of(7), 0);
    treasury.take_revenue(&p, XcmAsset::Fungible { location: l, amount: 40 });
    treasury.take_revenue(&p, XcmAsset::Fungible { location: l, amount: 2 });
    assert_eq!(treasury.balance_of(7), 42);
}

#[test]
fn take_revenue_discards_what_it_cannot_resolve() {
    let p = registry_with(7, 1000, loc(1, 2000));
    let mut treasury = ToTreasury::new();
    treasury.take_revenue(&p, XcmAsset::Fungible { location: loc(3, 3), amount: 40 });
    treasury.take_revenue(&p, XcmAsset::Other);
    assert_eq!(treasury.balance_of(7), 0);
}

#[test]
fn currency_id_converts_both_ways() {
    let l = loc(1, 2000);
    let p = registry_with(7, 1000, l);
    assert_eq!(CurrencyIdConvert::convert_to_location(&p, 7), Some(l));
    assert_eq!(CurrencyIdConvert::convert_to_location(&p, 8), None);
    assert_eq!(CurrencyIdConvert::convert_to_asset_id(&p, l), Some(7));
    assert_eq!(CurrencyIdConvert::convert_to_asset_id(&p, loc(0, 0)), None);
    assert_eq!(CustomAssetTrap::convert(&p, 7), Some(l));
}

#[test]
fn account_converts_to_its_own_location() {
    assert_eq!(
        AccountIdToMultiLocation::convert(42),
        Location { parents: 0, interior: 42 }
    );
}

#[test]
fn rpc_handler_answers_from_its_client() {
    let mut p = Pallet::new();
    let a = Asset {
        asset_id: 1,
        decimals: 6,
        name: b"alpha".to_vec(),
        existential_deposit: 5,
        location: None,
    };
    assert_eq!(p.do_register_asset(a), Ok(()));
    let handler = AssetsRegistryPallet::new(Arc::new(p));
    assert_eq!(handler.get_value(), Some(123));
    assert_eq!(handler.get_assets_names(), vec![b"alpha".to_vec()]);
    assert_eq!(handler.get_assets_names(), handler.get_assets_names());
}
