use assets_registry::registry::Pallet;
use assets_registry::types::{Asset, DispatchError, Error, Event, Location, Origin};

fn loc(parents: u8, interior: u64) -> Location {
    Location { parents, interior }
}

fn asset(id: u64, name: &[u8], deposit: u128, location: Option<Location>) -> Asset {
    Asset {
        asset_id: id,
        decimals: 12,
        name: name.to_vec(),
        existential_deposit: deposit,
        location,
    }
}

#[test]
fn get_value_is_fixed() {
    assert_eq!(Pallet::get_value(), Some(123));
}

#[test]
fn register_then_get_returns_submitted_record() {
    let mut p = Pallet::new();
    assert!(!p.is_asset_registered(&1));
    let a = asset(1, b"alpha", 1000, Some(loc(1, 2000)));
    assert_eq!(p.do_register_asset(a.clone()), Ok(()));
    assert!(p.is_asset_registered(&1));
    assert_eq!(p.get_asset(1), Some(a));
    assert_eq!(p.get_asset_name(1), Some(b"alpha".to_vec()));
    assert_eq!(p.get_asset_decimals(1), Some(12));
    assert_eq!(p.get_asset_existential_deposit(1), Some(1000));
    assert_eq!(p.events().as_slice(), &[Event::AssetRegistered(1)]);
}

#[test]
fn register_twice_fails_and_keeps_store() {
    let mut p = Pallet::new();
    let first = asset(1, b"alpha", 1000, Some(loc(1, 2000)));
    assert_eq!(p.do_register_asset(first.clone()), Ok(()));
    let second = asset(1, b"beta", 5, None);
    assert_eq!(p.do_register_asset(second), Err(Error::AssetAlreadyRegistered));
    assert_eq!(p.get_asset(1), Some(first));
    assert_eq!(p.get_asset_existential_deposit(1), Some(1000));
    assert_eq!(p.events().as_slice(), &[Event::AssetRegistered(1)]);
}

#[test]
fn update_rewrites_record_and_deposit() {
    let mut p = Pallet::new();
    assert_eq!(p.do_register_asset(asset(1, b"alpha", 1000, None)), Ok(()));
    let updated = asset(1, b"alpha-2", 2500, None);
    assert_eq!(p.do_update_asset(updated.clone()), Ok(()));
    assert_eq!(p.get_asset(1), Some(updated));
    assert_eq!(p.get_asset_existential_deposit(1), Some(2500));
    assert_eq!(
        p.events().as_slice(),
        &[Event::AssetRegistered(1), Event::AssetUpdated(1)]
    );
}

#[test]
fn update_missing_fails_and_is_noop() {
    let mut p = Pallet::new();
    assert_eq!(
        p.do_update_asset(asset(9, b"ghost", 1, None)),
        Err(Error::AssetDoesNotExist)
    );
    assert_eq!(p.get_asset(9), None);
    assert!(p.events().is_empty());
}

#[test]
fn delete_removes_record_deposit_and_location() {
    let mut p = Pallet::new();
    let l = loc(1, 2000);
    assert_eq!(p.do_register_asset(asset(1, b"alpha", 1000, Some(l))), Ok(()));
    assert_eq!(p.do_delete_asset(1), Ok(()));
    assert_eq!(p.get_asset(1), None);
    assert_eq!(p.get_asset_existential_deposit(1), None);
    assert_eq!(p.get_asset_id_by_location(l), None);
    assert!(!p.is_asset_registered(&1));
    assert_eq!(
        p.events().as_slice(),
        &[Event::AssetRegistered(1), Event::AssetDeleted(1)]
    );
}

#[test]
fn delete_missing_fails_and_is_noop() {
    let mut p = Pallet::new();
    assert_eq!(p.do_delete_asset(7), Err(Error::AssetDoesNotExist));
    assert!(p.events().is_empty());
}

#[test]
fn location_can_be_reused_after_update() {
    let mut p = Pallet::new();
    let l = loc(1, 2000);
    let l2 = loc(1, 3000);
    assert_eq!(p.do_register_asset(asset(1, b"alpha", 10, Some(l))), Ok(()));
    assert_eq!(p.do_register_asset(asset(2, b"beta", 20, None)), Ok(()));
    assert_eq!(p.get_asset_id_by_location(l), Some(1));
    assert_eq!(p.do_update_asset(asset(1, b"alpha", 10, Some(l2))), Ok(()));
    assert_eq!(p.do_update_asset(asset(2, b"beta", 20, Some(l))), Ok(()));
    assert_eq!(p.get_asset_id_by_location(l), Some(2));
    assert_eq!(p.get_asset_id_by_location(l2), Some(1));
    assert_eq!(p.get_location_by_asset(1), Some(l2));
    assert_eq!(p.get_location_by_asset(2), Some(l));
}

#[test]
fn update_to_no_location_unmaps_the_old_one() {
    let mut p = Pallet::new();
    let l = loc(0, 5);
    assert_eq!(p.do_register_asset(asset(1, b"alpha", 10, Some(l))), Ok(()));
    assert_eq!(p.do_update_asset(asset(1, b"alpha", 10, None)), Ok(()));
    assert_eq!(p.get_asset_id_by_location(l), None);
    assert_eq!(p.get_location_by_asset(1), None);
}

#[test]
fn lookup_by_location_round_trips() {
    let mut p = Pallet::new();
    let l = loc(1, 2000);
    assert_eq!(p.do_register_asset(asset(4, b"gamma", 77, Some(l))), Ok(()));
    let id = p.get_asset_id_by_location(l).unwrap();
    assert_eq!(p.get_asset_by_location(l), p.get_asset(id));
    assert_eq!(p.get_asset_by_location(loc(9, 9)), None);
}

#[test]
fn assets_names_lists_every_registered_name() {
    let mut p = Pallet::new();
    assert!(p.get_assets_names().is_empty());
    assert_eq!(p.do_register_asset(asset(1, b"alpha", 10, None)), Ok(()));
    assert_eq!(p.do_register_asset(asset(2, b"beta", 20, None)), Ok(()));
    let names = p.get_assets_names();
    assert_eq!(names.len(), 2);
    assert!(names.contains(&b"alpha".to_vec()));
    assert!(names.contains(&b"beta".to_vec()));
}

#[test]
fn queries_are_idempotent_without_mutation() {
    let mut p = Pallet::new();
    assert_eq!(p.do_register_asset(asset(1, b"alpha", 10, Some(loc(1, 2)))), Ok(()));
    assert_eq!(p.do_register_asset(asset(2, b"beta", 20, None)), Ok(()));
    assert_eq!(p.get_asset(1), p.get_asset(1));
    assert_eq!(p.get_asset(2), p.get_asset(2));
    assert_eq!(p.get_assets_names(), p.get_assets_names());
    assert_eq!(p.get_asset_id_by_location(loc(1, 2)), p.get_asset_id_by_location(loc(1, 2)));
}

#[test]
fn dispatch_requires_root_origin() {
    let mut p = Pallet::new();
    let a = asset(1, b"alpha", 10, None);
    assert_eq!(
        p.register_asset(Origin::Signed(5), a.clone()),
        Err(DispatchError::BadOrigin)
    );
    assert_eq!(
        p.register_asset(Origin::Unsigned, a.clone()),
        Err(DispatchError::BadOrigin)
    );
    assert_eq!(p.get_asset(1), None);
    assert!(p.events().is_empty());
    assert_eq!(p.register_asset(Origin::Root, a.clone()), Ok(()));
    assert_eq!(p.get_asset(1), Some(a));

    assert_eq!(
        p.update_asset(Origin::Signed(5), asset(1, b"alpha", 11, None)),
        Err(DispatchError::BadOrigin)
    );
    assert_eq!(p.get_asset_existential_deposit(1), Some(10));
    assert_eq!(p.update_asset(Origin::Root, asset(1, b"alpha", 11, None)), Ok(()));
    assert_eq!(p.get_asset_existential_deposit(1), Some(11));

    assert_eq!(p.delete_asset(Origin::Unsigned, 1), Err(DispatchError::BadOrigin));
    assert!(p.is_asset_registered(&1));
    assert_eq!(p.delete_asset(Origin::Root, 1), Ok(()));
    assert!(!p.is_asset_registered(&1));
}

#[test]
fn dispatch_wraps_registry_errors() {
    let mut p = Pallet::new();
    assert_eq!(
        p.update_asset(Origin::Root, asset(1, b"alpha", 10, None)),
        Err(DispatchError::Registry(Error::AssetDoesNotExist))
    );
    assert_eq!(
        p.delete_asset(Origin::Root, 1),
        Err(DispatchError::Registry(Error::AssetDoesNotExist))
    );
    assert_eq!(p.register_asset(Origin::Root, asset(1, b"alpha", 10, None)), Ok(()));
    assert_eq!(
        p.register_asset(Origin::Root, asset(1, b"beta", 20, None)),
        Err(DispatchError::Registry(Error::AssetAlreadyRegistered))
    );
}
