//! The registry's abstract state and the meaning of every operation on it.
//!
//! A [`RegistryView`] holds the three coupled maps — records by identifier,
//! existential deposits by identifier, identifiers by location — together
//! with the event log.  Each query and each mutation of the registry is
//! given its meaning here as a function on views; the executable code's
//! contracts equate its effect with these functions.

use vstd::prelude::*;

use crate::types::{AssetView, Error, Event, Location};

verus! {

/// The abstract state of the registry.
#[verifier::ext_equal]
pub ghost struct RegistryView {
    /// Asset records by identifier.
    pub assets: Map<u64, AssetView>,
    /// Existential deposits by identifier.
    pub deposits: Map<u64, u128>,
    /// Asset identifiers by cross-chain location.
    pub locations: Map<Location, u64>,
    /// The events emitted so far, oldest first.
    pub events: Seq<Event>,
}

impl RegistryView {
    /// The state of a freshly created registry.
    pub open spec fn empty() -> RegistryView {
        RegistryView {
            assets: Map::empty(),
            deposits: Map::empty(),
            locations: Map::empty(),
            events: Seq::empty(),
        }
    }

    /// Referential consistency of the three maps:
    ///
    /// - a record exists exactly when its existential-deposit entry does,
    ///   and the entry repeats the record's deposit;
    /// - a record is stored under its own identifier;
    /// - a record's location, when set, is mapped back to the record's
    ///   identifier, and every location mapping points at a record that
    ///   claims that location — so no location is claimed twice and no
    ///   stale mapping survives.
    pub open spec fn consistent(self) -> bool {
        &&& forall|id: u64| #[trigger]
            self.assets.contains_key(id) ==> self.deposits.contains_key(id)
                && self.deposits[id] == self.assets[id].existential_deposit
                && self.assets[id].asset_id == id
        &&& forall|id: u64| #[trigger] self.deposits.contains_key(id) ==> self.assets.contains_key(id)
        &&& forall|id: u64| #[trigger]
            self.assets.contains_key(id) ==> (self.assets[id].location matches Some(l)
                ==> self.locations.contains_key(l) && self.locations[l] == id)
        &&& forall|l: Location| #[trigger]
            self.locations.contains_key(l) ==> self.assets.contains_key(self.locations[l])
                && self.assets[self.locations[l]].location == Some(l)
    }
}

/// The record registered under an identifier, if any.
pub open spec fn spec_get_asset(v: RegistryView, asset_id: u64) -> Option<AssetView> {
    if v.assets.contains_key(asset_id) {
        Some(v.assets[asset_id])
    } else {
        None
    }
}

/// The identifier a location resolves to, if any.
pub open spec fn spec_get_asset_id_by_location(v: RegistryView, location: Location) -> Option<u64> {
    if v.locations.contains_key(location) {
        Some(v.locations[location])
    } else {
        None
    }
}

/// The record a location resolves to: location to identifier, then
/// identifier to record; absent if either step misses.
pub open spec fn spec_get_asset_by_location(v: RegistryView, location: Location) -> Option<
    AssetView,
> {
    match spec_get_asset_id_by_location(v, location) {
        Some(asset_id) => spec_get_asset(v, asset_id),
        None => None,
    }
}

/// The location recorded for an identifier, if the record exists and has one.
pub open spec fn spec_get_location_by_asset(v: RegistryView, asset_id: u64) -> Option<Location> {
    match spec_get_asset(v, asset_id) {
        Some(asset) => asset.location,
        None => None,
    }
}

/// The existential deposit recorded for an identifier, if any.
pub open spec fn spec_get_existential_deposit(v: RegistryView, asset_id: u64) -> Option<u128> {
    if v.deposits.contains_key(asset_id) {
        Some(v.deposits[asset_id])
    } else {
        None
    }
}

/// Registration: refused when the identifier is already present; otherwise
/// the record and its existential deposit are written, the record's
/// location (if any) is mapped to the identifier, and the event is logged.
pub open spec fn spec_register(v: RegistryView, asset: AssetView) -> (RegistryView, Result<
    (),
    Error,
>) {
    if v.assets.contains_key(asset.asset_id) {
        (v, Err(Error::AssetAlreadyRegistered))
    } else {
        (
            RegistryView {
                assets: v.assets.insert(asset.asset_id, asset),
                deposits: v.deposits.insert(asset.asset_id, asset.existential_deposit),
                locations: match asset.location {
                    Some(l) => v.locations.insert(l, asset.asset_id),
                    None => v.locations,
                },
                events: v.events.push(Event::AssetRegistered(asset.asset_id)),
            },
            Ok(()),
        )
    }
}

/// Update: refused when the identifier is absent; otherwise the record and
/// its existential deposit are rewritten, the mapping of the record's old
/// location is removed before the new location (if any) is mapped, and the
/// event is logged.  Removing the stale mapping even when the new record
/// carries no location keeps the location map free of entries no record
/// claims.
pub open spec fn spec_update(v: RegistryView, asset: AssetView) -> (RegistryView, Result<
    (),
    Error,
>) {
    if !v.assets.contains_key(asset.asset_id) {
        (v, Err(Error::AssetDoesNotExist))
    } else {
        let cleared = match v.assets[asset.asset_id].location {
            Some(old_location) => v.locations.remove(old_location),
            None => v.locations,
        };
        (
            RegistryView {
                assets: v.assets.insert(asset.asset_id, asset),
                deposits: v.deposits.insert(asset.asset_id, asset.existential_deposit),
                locations: match asset.location {
                    Some(l) => cleared.insert(l, asset.asset_id),
                    None => cleared,
                },
                events: v.events.push(Event::AssetUpdated(asset.asset_id)),
            },
            Ok(()),
        )
    }
}

/// Deletion: refused when the identifier is absent; otherwise the record,
/// its existential deposit, and — when the record carried a location — the
/// location mapping are removed, and the event is logged.  Purging the
/// location mapping is a deliberate choice: leaving it behind would let a
/// dangling location resolve to an identifier with no record.
pub open spec fn spec_delete(v: RegistryView, asset_id: u64) -> (RegistryView, Result<(), Error>) {
    if !v.assets.contains_key(asset_id) {
        (v, Err(Error::AssetDoesNotExist))
    } else {
        (
            RegistryView {
                assets: v.assets.remove(asset_id),
                deposits: v.deposits.remove(asset_id),
                locations: match v.assets[asset_id].location {
                    Some(l) => v.locations.remove(l),
                    None => v.locations,
                },
                events: v.events.push(Event::AssetDeleted(asset_id)),
            },
            Ok(()),
        )
    }
}

} // verus!
