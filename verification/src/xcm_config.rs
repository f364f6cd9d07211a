//! Cross-chain settlement around the registry: the identifier/location
//! converters the messaging executor wires in, revenue capture into the
//! treasury, and the dust policy applied to assets left unclaimed after an
//! inbound message.
//!
//! The policy reads the registry and never writes it.  For each returned
//! asset it resolves the asset's location to a registered identifier and
//! compares the amount to the recorded existential deposit: amounts below
//! the deposit are dust and are captured as revenue; anything else — larger
//! amounts, but also assets whose location does not resolve or whose
//! deposit is not on record — is conservatively handed to the trap, where
//! the origin can later claim it.

use vstd::prelude::*;

use crate::kv::{
    assoc_map, distinct_keys, lemma_assoc_map_contains, lemma_assoc_map_index,
    lemma_assoc_map_push, lemma_assoc_map_update, lemma_distinct_push,
};
use crate::model::{
    spec_get_asset_id_by_location, spec_get_existential_deposit, spec_get_location_by_asset,
    RegistryView,
};
use crate::registry::Pallet;
use crate::types::Location;

verus! {

/// An asset as the messaging layer hands it over for settlement.
#[derive(Clone, Copy, PartialEq, Eq, Structural, Debug)]
pub enum XcmAsset {
    /// A concrete fungible amount of the asset native to the given location.
    Fungible { location: Location, amount: u128 },
    /// Any other wire form (non-fungible, or without a concrete location).
    /// The dust policy leaves these to the executor's default handling.
    Other,
}

/// The treasury balance recorded for an identifier; absent means zero.
pub open spec fn spec_balance_of(t: Map<u64, u128>, asset_id: u64) -> u128 {
    if t.contains_key(asset_id) {
        t[asset_id]
    } else {
        0
    }
}

/// Revenue capture: the asset's location is resolved through the registry
/// and the amount is credited to the treasury under the resolved
/// identifier.  Revenue whose location does not resolve, or that is not a
/// concrete fungible amount, is discarded; a credit that would not fit the
/// balance is abandoned and leaves the balance unchanged.
pub open spec fn spec_take_revenue(v: RegistryView, t: Map<u64, u128>, asset: XcmAsset) -> Map<
    u64,
    u128,
> {
    match asset {
        XcmAsset::Fungible { location, amount } => match spec_get_asset_id_by_location(
            v,
            location,
        ) {
            Some(asset_id) => if spec_balance_of(t, asset_id) + amount <= u128::MAX {
                t.insert(asset_id, (spec_balance_of(t, asset_id) + amount) as u128)
            } else {
                t
            },
            None => t,
        },
        XcmAsset::Other => t,
    }
}

/// What the dust policy decides for one returned asset.
pub enum DropDisposition {
    /// Below the recorded existential deposit: captured as revenue.
    Revenue,
    /// Held for a later claim by the origin.
    Trap,
    /// Not a concrete fungible asset: left to the executor's default.
    Ignore,
}

/// The decision for one asset.  Dust — an amount strictly below the
/// recorded existential deposit — becomes revenue; everything else that is
/// a concrete fungible amount is trapped, in particular when the location
/// has no registry mapping or no deposit is on record, since without a
/// threshold no amount can safely be judged dust.
pub open spec fn spec_classify_drop(v: RegistryView, asset: XcmAsset) -> DropDisposition {
    match asset {
        XcmAsset::Fungible { location, amount } => match spec_get_asset_id_by_location(
            v,
            location,
        ) {
            Some(asset_id) => match spec_get_existential_deposit(v, asset_id) {
                Some(deposit) => if amount < deposit {
                    DropDisposition::Revenue
                } else {
                    DropDisposition::Trap
                },
                None => DropDisposition::Trap,
            },
            None => DropDisposition::Trap,
        },
        XcmAsset::Other => DropDisposition::Ignore,
    }
}

/// The abstract state of the trap: treasury balances by identifier, and the
/// held assets, each with the origin entitled to claim it.
#[verifier::ext_equal]
pub ghost struct TrapView {
    pub treasury: Map<u64, u128>,
    pub trapped: Seq<(Location, XcmAsset)>,
}

/// The effect of settling one returned asset.
pub open spec fn spec_drop_one(
    v: RegistryView,
    s: TrapView,
    origin: Location,
    asset: XcmAsset,
) -> TrapView {
    match spec_classify_drop(v, asset) {
        DropDisposition::Revenue => TrapView {
            treasury: spec_take_revenue(v, s.treasury, asset),
            trapped: s.trapped,
        },
        DropDisposition::Trap => TrapView {
            treasury: s.treasury,
            trapped: s.trapped.push((origin, asset)),
        },
        DropDisposition::Ignore => s,
    }
}

/// The effect of settling a batch of returned assets, first to last.
pub open spec fn spec_drop_assets(
    v: RegistryView,
    s: TrapView,
    origin: Location,
    assets: Seq<XcmAsset>,
) -> TrapView
    decreases assets.len(),
{
    if assets.len() == 0 {
        s
    } else {
        spec_drop_assets(v, spec_drop_one(v, s, origin, assets[0]), origin, assets.skip(1))
    }
}

/// The first index whose pair carries the identifier, if any.
fn find_balance_index(v: &Vec<(u64, u128)>, asset_id: u64) -> (r: Option<usize>)
    ensures
        match r {
            Some(i) => i < v.len() && v@[i as int].0 == asset_id,
            None => forall|j: int| 0 <= j < v@.len() ==> (#[trigger] v@[j]).0 != asset_id,
        },
{
    let mut i: usize = 0;
    while i < v.len()
        invariant
            i <= v.len(),
            forall|j: int| 0 <= j < i ==> (#[trigger] v@[j]).0 != asset_id,
        decreases v.len() - i,
    {
        if v[i].0 == asset_id {
            return Some(i);
        }
        i = i + 1;
    }
    None
}

/// The treasury: what revenue capture has credited, by asset identifier.
pub struct ToTreasury {
    balances: Vec<(u64, u128)>,
}

impl View for ToTreasury {
    type V = Map<u64, u128>;

    closed spec fn view(&self) -> Map<u64, u128> {
        assoc_map(self.balances@)
    }
}

impl ToTreasury {
    /// The stored balances keep their keys distinct.
    pub closed spec fn well_formed(&self) -> bool {
        distinct_keys(self.balances@)
    }

    /// An empty treasury.
    pub fn new() -> (r: ToTreasury)
        ensures
            r.well_formed(),
            r@ == Map::<u64, u128>::empty(),
    {
        ToTreasury { balances: Vec::new() }
    }

    /// The balance credited under the identifier; zero when nothing was.
    pub fn balance_of(&self, asset_id: u64) -> (r: u128)
        requires
            self.well_formed(),
        ensures
            r == spec_balance_of(self@, asset_id),
    {
        match find_balance_index(&self.balances, asset_id) {
            Some(i) => {
                proof {
                    lemma_assoc_map_index(self.balances@, i as int);
                }
                self.balances[i].1
            },
            None => {
                proof {
                    lemma_assoc_map_contains(self.balances@, asset_id);
                }
                0
            },
        }
    }

    /// Credit returned revenue to the treasury, under the identifier the
    /// asset's location resolves to.
    pub fn take_revenue(&mut self, registry: &Pallet, asset: XcmAsset)
        requires
            registry.well_formed(),
            old(self).well_formed(),
        ensures
            final(self).well_formed(),
            final(self)@ == spec_take_revenue(registry@, old(self)@, asset),
    {
        match asset {
            XcmAsset::Fungible { location, amount } => {
                match registry.get_asset_id_by_location(location) {
                    Some(asset_id) => {
                        let current = self.balance_of(asset_id);
                        match current.checked_add(amount) {
                            Some(total) => {
                                match find_balance_index(&self.balances, asset_id) {
                                    Some(i) => {
                                        proof {
                                            lemma_assoc_map_update(
                                                self.balances@,
                                                i as int,
                                                total,
                                            );
                                        }
                                        self.balances.set(i, (asset_id, total));
                                    },
                                    None => {
                                        proof {
                                            lemma_assoc_map_push(self.balances@, asset_id, total);
                                            lemma_distinct_push(self.balances@, asset_id, total);
                                        }
                                        self.balances.push((asset_id, total));
                                    },
                                }
                            },
                            None => {},
                        }
                    },
                    None => {},
                }
            },
            XcmAsset::Other => {},
        }
    }
}

/// Identifier/location conversion, read through the registry in both
/// directions; absence means "cannot resolve", never an error.
pub struct CurrencyIdConvert;

impl CurrencyIdConvert {
    /// The location recorded for the identifier, if any.
    pub fn convert_to_location(registry: &Pallet, asset_id: u64) -> (r: Option<Location>)
        requires
            registry.well_formed(),
        ensures
            r == spec_get_location_by_asset(registry@, asset_id),
    {
        registry.get_location_by_asset(asset_id)
    }

    /// The identifier the location resolves to, if any.
    pub fn convert_to_asset_id(registry: &Pallet, location: Location) -> (r: Option<u64>)
        requires
            registry.well_formed(),
        ensures
            r == spec_get_asset_id_by_location(registry@, location),
    {
        registry.get_asset_id_by_location(location)
    }
}

/// A local account's own location: no parent hops, the account itself as
/// the interior path.
pub struct AccountIdToMultiLocation;

impl AccountIdToMultiLocation {
    /// The location that denotes the given local account.
    pub fn convert(account: u64) -> (r: Location)
        ensures
            r == (Location { parents: 0, interior: account }),
    {
        Location { parents: 0, interior: account }
    }
}

/// The dust policy and its state: the treasury it credits and the assets it
/// holds for later claims.
pub struct CustomAssetTrap {
    treasury: ToTreasury,
    trapped: Vec<(Location, XcmAsset)>,
}

impl View for CustomAssetTrap {
    type V = TrapView;

    closed spec fn view(&self) -> TrapView {
        TrapView { treasury: self.treasury@, trapped: self.trapped@ }
    }
}

impl CustomAssetTrap {
    /// The treasury's stored balances keep their keys distinct.
    pub closed spec fn well_formed(&self) -> bool {
        self.treasury.well_formed()
    }

    /// A trap with an empty treasury and nothing held.
    pub fn new() -> (r: CustomAssetTrap)
        ensures
            r.well_formed(),
            r@ == (TrapView { treasury: Map::<u64, u128>::empty(), trapped: Seq::empty() }),
    {
        let r = CustomAssetTrap { treasury: ToTreasury::new(), trapped: Vec::new() };
        proof {
            assert(r@ =~= (TrapView {
                treasury: Map::<u64, u128>::empty(),
                trapped: Seq::empty(),
            }));
        }
        r
    }

    /// The treasury credited by revenue capture.
    pub fn treasury(&self) -> (r: &ToTreasury)
        ensures
            r@ == self@.treasury,
            self.well_formed() ==> r.well_formed(),
    {
        &self.treasury
    }

    /// The held assets, each with the origin entitled to claim it.
    pub fn trapped(&self) -> (r: &Vec<(Location, XcmAsset)>)
        ensures
            r@ == self@.trapped,
    {
        &self.trapped
    }

    /// Settle the assets an inbound message left unclaimed: dust is
    /// credited to the treasury, everything else that is concrete and
    /// fungible is held for the origin to claim.
    pub fn drop_assets(&mut self, registry: &Pallet, origin: &Location, assets: Vec<XcmAsset>)
        requires
            registry.well_formed(),
            old(self).well_formed(),
        ensures
            final(self).well_formed(),
            final(self)@ == spec_drop_assets(registry@, old(self)@, *origin, assets@),
    {
        let ghost s0 = self@;
        proof {
            assert(assets@.skip(0) =~= assets@);
        }
        let mut i: usize = 0;
        while i < assets.len()
            invariant
                i <= assets@.len(),
                registry.well_formed(),
                self.well_formed(),
                spec_drop_assets(registry@, self@, *origin, assets@.skip(i as int))
                    == spec_drop_assets(registry@, s0, *origin, assets@),
            decreases assets@.len() - i,
        {
            let a = assets[i];
            let ghost s_pre = self@;
            match a {
                XcmAsset::Fungible { location, amount } => {
                    match registry.get_asset_id_by_location(location) {
                        Some(asset_id) => {
                            match registry.get_asset_existential_deposit(asset_id) {
                                Some(deposit) => {
                                    if amount < deposit {
                                        self.treasury.take_revenue(registry, a);
                                    } else {
                                        self.trapped.push((*origin, a));
                                    }
                                },
                                None => {
                                    self.trapped.push((*origin, a));
                                },
                            }
                        },
                        None => {
                            self.trapped.push((*origin, a));
                        },
                    }
                },
                XcmAsset::Other => {},
            }
            proof {
                assert(self@ =~= spec_drop_one(registry@, s_pre, *origin, assets@[i as int]));
                assert(assets@.skip(i as int)[0] == assets@[i as int]);
                assert(assets@.skip(i as int).skip(1) =~= assets@.skip(i as int + 1));
            }
            i = i + 1;
        }
        proof {
            assert(assets@.skip(assets@.len() as int) =~= Seq::<XcmAsset>::empty());
        }
    }

    /// The location recorded for the identifier, if any — the conversion
    /// the executor wires in beside the trap.
    pub fn convert(registry: &Pallet, asset_id: u64) -> (r: Option<Location>)
        requires
            registry.well_formed(),
        ensures
            r == spec_get_location_by_asset(registry@, asset_id),
    {
        registry.get_location_by_asset(asset_id)
    }
}

} // verus!
