//! The laws the registry and the dust policy obey, stated over the
//! transition functions of [`crate::model`] and [`crate::xcm_config`] and
//! proved once and for all.  The executable operations' contracts equate
//! each call with those transition functions, so every law here carries
//! over to the running code.

use vstd::prelude::*;

use crate::model::{
    spec_delete, spec_get_asset, spec_get_asset_by_location, spec_get_asset_id_by_location,
    spec_get_existential_deposit, spec_get_location_by_asset, spec_register, spec_update,
    RegistryView,
};
use crate::types::{AssetView, Error, Location};
use crate::xcm_config::{spec_balance_of, spec_drop_assets, TrapView, XcmAsset};

verus! {

/// Registering an unregistered identifier succeeds, and a lookup then
/// returns exactly the submitted record; a second registration under the
/// same identifier fails with `AssetAlreadyRegistered` and changes nothing,
/// the event log included.
pub proof fn lemma_register_then_get(v: RegistryView, a: AssetView, b: AssetView)
    requires
        !v.assets.contains_key(a.asset_id),
        b.asset_id == a.asset_id,
    ensures
        ({
            let (v1, r1) = spec_register(v, a);
            &&& r1 == Ok::<(), Error>(())
            &&& spec_get_asset(v1, a.asset_id) == Some(a)
            &&& spec_register(v1, b) == (v1, Err::<(), Error>(Error::AssetAlreadyRegistered))
        }),
{
}

/// Deleting a registered identifier succeeds, and both the record and its
/// existential deposit are gone afterwards.
pub proof fn lemma_delete_then_get(v: RegistryView, asset_id: u64)
    requires
        v.assets.contains_key(asset_id),
    ensures
        ({
            let (v1, r1) = spec_delete(v, asset_id);
            &&& r1 == Ok::<(), Error>(())
            &&& spec_get_asset(v1, asset_id) is None
            &&& spec_get_existential_deposit(v1, asset_id) is None
        }),
{
}

/// Updating an unregistered identifier fails with `AssetDoesNotExist` and
/// changes nothing.
pub proof fn lemma_update_absent_is_noop(v: RegistryView, a: AssetView)
    requires
        !v.assets.contains_key(a.asset_id),
    ensures
        spec_update(v, a) == (v, Err::<(), Error>(Error::AssetDoesNotExist)),
{
}

/// Deleting an unregistered identifier fails with `AssetDoesNotExist` and
/// changes nothing.
pub proof fn lemma_delete_absent_is_noop(v: RegistryView, asset_id: u64)
    requires
        !v.assets.contains_key(asset_id),
    ensures
        spec_delete(v, asset_id) == (v, Err::<(), Error>(Error::AssetDoesNotExist)),
{
}

/// A location freed by an update can be claimed by another asset: register
/// A with location L and B without one, move A to a different location L2,
/// then point B at L.  Afterwards L resolves to B, and A stands at L2 — the
/// old A-to-L mapping is gone.
pub proof fn lemma_location_reuse(
    v: RegistryView,
    a: AssetView,
    b: AssetView,
    a2: AssetView,
    b2: AssetView,
    l: Location,
    l2: Location,
)
    requires
        a.asset_id != b.asset_id,
        !v.assets.contains_key(a.asset_id),
        !v.assets.contains_key(b.asset_id),
        a.location == Some(l),
        b.location is None,
        l2 != l,
        a2.asset_id == a.asset_id,
        a2.location == Some(l2),
        b2.asset_id == b.asset_id,
        b2.location == Some(l),
    ensures
        ({
            let (va, _) = spec_register(v, a);
            let (vb, _) = spec_register(va, b);
            let (vu1, _) = spec_update(vb, a2);
            let (vu2, _) = spec_update(vu1, b2);
            &&& spec_get_asset_id_by_location(vu2, l) == Some(b.asset_id)
            &&& spec_get_location_by_asset(vu2, a.asset_id) == Some(l2)
        }),
{
}

/// Wherever a location is mapped, resolving it to a record directly equals
/// resolving it to an identifier first and looking the identifier up.
pub proof fn lemma_location_round_trip(v: RegistryView, location: Location)
    requires
        v.locations.contains_key(location),
    ensures
        spec_get_asset_by_location(v, location) == spec_get_asset(
            v,
            spec_get_asset_id_by_location(v, location).unwrap(),
        ),
{
}

/// The empty registry is consistent.
pub proof fn lemma_empty_consistent()
    ensures
        RegistryView::empty().consistent(),
{
}

/// Registration preserves consistency, provided the submitted record does
/// not claim a location that is already mapped.
pub proof fn lemma_register_preserves_consistency(v: RegistryView, a: AssetView)
    requires
        v.consistent(),
        a.location matches Some(l) ==> !v.locations.contains_key(l),
    ensures
        spec_register(v, a).0.consistent(),
{
    if !v.assets.contains_key(a.asset_id) {
        let v1 = spec_register(v, a).0;
        assert forall|id: u64| #[trigger]
            v1.assets.contains_key(id) implies (v1.assets[id].location matches Some(lo)
            ==> v1.locations.contains_key(lo) && v1.locations[lo] == id) by {
            if id != a.asset_id {
                if v.assets[id].location is Some {
                    let lo = v.assets[id].location.unwrap();
                    assert(v.locations.contains_key(lo));
                }
            }
        }
        assert forall|lo: Location| #[trigger]
            v1.locations.contains_key(lo) implies v1.assets.contains_key(v1.locations[lo])
            && v1.assets[v1.locations[lo]].location == Some(lo) by {
            if a.location matches Some(l) && lo == l {
            } else {
                assert(v.locations.contains_key(lo));
                assert(v.locations[lo] != a.asset_id);
            }
        }
    }
}

/// Update preserves consistency, provided the new location, when set, is
/// either unmapped or already mapped to the updated asset itself.
pub proof fn lemma_update_preserves_consistency(v: RegistryView, a: AssetView)
    requires
        v.consistent(),
        a.location matches Some(l) ==> (!v.locations.contains_key(l) || v.locations[l]
            == a.asset_id),
    ensures
        spec_update(v, a).0.consistent(),
{
    if v.assets.contains_key(a.asset_id) {
        let v1 = spec_update(v, a).0;
        let old_asset = v.assets[a.asset_id];
        assert forall|id: u64| #[trigger]
            v1.assets.contains_key(id) implies (v1.assets[id].location matches Some(lo)
            ==> v1.locations.contains_key(lo) && v1.locations[lo] == id) by {
            if id != a.asset_id {
                if v.assets[id].location is Some {
                    let lo = v.assets[id].location.unwrap();
                    assert(v.locations.contains_key(lo) && v.locations[lo] == id);
                    if old_asset.location is Some {
                        assert(v.locations[old_asset.location.unwrap()] == a.asset_id);
                        assert(lo != old_asset.location.unwrap());
                    }
                }
            }
        }
        assert forall|lo: Location| #[trigger]
            v1.locations.contains_key(lo) implies v1.assets.contains_key(v1.locations[lo])
            && v1.assets[v1.locations[lo]].location == Some(lo) by {
            if a.location matches Some(l) && lo == l {
            } else {
                assert(v.locations.contains_key(lo));
                let id2 = v.locations[lo];
                assert(v.assets[id2].location == Some(lo));
                if id2 == a.asset_id {
                    assert(old_asset.location == Some(lo));
                    assert(false);
                }
            }
        }
    }
}

/// Deletion preserves consistency unconditionally: the record, its deposit,
/// and its location mapping leave together.
pub proof fn lemma_delete_preserves_consistency(v: RegistryView, asset_id: u64)
    requires
        v.consistent(),
    ensures
        spec_delete(v, asset_id).0.consistent(),
{
    if v.assets.contains_key(asset_id) {
        let v1 = spec_delete(v, asset_id).0;
        let old_asset = v.assets[asset_id];
        assert forall|id: u64| #[trigger]
            v1.assets.contains_key(id) implies (v1.assets[id].location matches Some(lo)
            ==> v1.locations.contains_key(lo) && v1.locations[lo] == id) by {
            if v.assets[id].location is Some {
                let lo = v.assets[id].location.unwrap();
                assert(v.locations.contains_key(lo) && v.locations[lo] == id);
                if old_asset.location is Some {
                    assert(v.locations[old_asset.location.unwrap()] == asset_id);
                    assert(lo != old_asset.location.unwrap());
                }
            }
        }
        assert forall|lo: Location| #[trigger]
            v1.locations.contains_key(lo) implies v1.assets.contains_key(v1.locations[lo])
            && v1.assets[v1.locations[lo]].location == Some(lo) by {
            assert(v.locations.contains_key(lo));
            let id2 = v.locations[lo];
            assert(v.assets[id2].location == Some(lo));
            if id2 == asset_id {
                assert(old_asset.location == Some(lo));
                assert(false);
            }
        }
    }
}

/// A returned amount strictly below the recorded existential deposit is
/// captured as revenue: the treasury balance of the resolved asset grows by
/// exactly that amount, no other balance moves, and nothing is trapped.
pub proof fn lemma_dust_captured(
    v: RegistryView,
    s: TrapView,
    origin: Location,
    location: Location,
    amount: u128,
)
    requires
        v.locations.contains_key(location),
        v.deposits.contains_key(v.locations[location]),
        amount < v.deposits[v.locations[location]],
        spec_balance_of(s.treasury, v.locations[location]) + amount <= u128::MAX,
    ensures
        ({
            let asset = XcmAsset::Fungible { location, amount };
            let s1 = spec_drop_assets(v, s, origin, seq![asset]);
            let asset_id = v.locations[location];
            &&& s1.trapped == s.trapped
            &&& spec_balance_of(s1.treasury, asset_id) == spec_balance_of(s.treasury, asset_id)
                + amount
            &&& forall|other: u64|
                other != asset_id ==> spec_balance_of(s1.treasury, other) == spec_balance_of(
                    s.treasury,
                    other,
                )
        }),
{
    reveal_with_fuel(spec_drop_assets, 2);
    let asset = XcmAsset::Fungible { location, amount };
    assert(seq![asset][0] == asset);
    assert(seq![asset].skip(1) =~= Seq::<XcmAsset>::empty());
}

/// A returned amount at or above the recorded existential deposit is not
/// revenue: the treasury is untouched and the asset is trapped for the
/// origin to claim.
pub proof fn lemma_non_dust_trapped(
    v: RegistryView,
    s: TrapView,
    origin: Location,
    location: Location,
    amount: u128,
)
    requires
        v.locations.contains_key(location),
        v.deposits.contains_key(v.locations[location]),
        amount >= v.deposits[v.locations[location]],
    ensures
        ({
            let asset = XcmAsset::Fungible { location, amount };
            let s1 = spec_drop_assets(v, s, origin, seq![asset]);
            &&& s1.treasury == s.treasury
            &&& s1.trapped == s.trapped.push((origin, asset))
        }),
{
    reveal_with_fuel(spec_drop_assets, 2);
    let asset = XcmAsset::Fungible { location, amount };
    assert(seq![asset][0] == asset);
    assert(seq![asset].skip(1) =~= Seq::<XcmAsset>::empty());
}

/// A returned asset whose location has no registry mapping is never judged:
/// whatever the amount, the treasury is untouched and the asset is trapped.
pub proof fn lemma_unresolved_trapped(
    v: RegistryView,
    s: TrapView,
    origin: Location,
    location: Location,
    amount: u128,
)
    requires
        !v.locations.contains_key(location),
    ensures
        ({
            let asset = XcmAsset::Fungible { location, amount };
            let s1 = spec_drop_assets(v, s, origin, seq![asset]);
            &&& s1.treasury == s.treasury
            &&& s1.trapped == s.trapped.push((origin, asset))
        }),
{
    reveal_with_fuel(spec_drop_assets, 2);
    let asset = XcmAsset::Fungible { location, amount };
    assert(seq![asset][0] == asset);
    assert(seq![asset].skip(1) =~= Seq::<XcmAsset>::empty());
}

/// A returned asset whose identifier has no existential deposit on record
/// is trapped, not captured: without a threshold no amount can safely be
/// judged dust.  (Treating a missing deposit as zero would instead make
/// every amount pass as viable.)
pub proof fn lemma_no_deposit_trapped(
    v: RegistryView,
    s: TrapView,
    origin: Location,
    location: Location,
    amount: u128,
)
    requires
        v.locations.contains_key(location),
        !v.deposits.contains_key(v.locations[location]),
    ensures
        ({
            let asset = XcmAsset::Fungible { location, amount };
            let s1 = spec_drop_assets(v, s, origin, seq![asset]);
            &&& s1.treasury == s.treasury
            &&& s1.trapped == s.trapped.push((origin, asset))
        }),
{
    reveal_with_fuel(spec_drop_assets, 2);
    let asset = XcmAsset::Fungible { location, amount };
    assert(seq![asset][0] == asset);
    assert(seq![asset].skip(1) =~= Seq::<XcmAsset>::empty());
}

} // verus!
