//! The asset record store and its mutation protocol.
//!
//! [`Pallet`] owns the three coupled maps, each stored as a vector of pairs
//! with distinct keys, together with the event log.  Queries are read-only;
//! register, update, and delete are the only mutations, each equated with
//! its transition function from [`crate::model`].  The dispatched entry
//! points additionally gate on the privileged origin.

use vstd::prelude::*;

use crate::kv::{
    assoc_map, distinct_keys, lemma_assoc_map_contains, lemma_assoc_map_index,
    lemma_assoc_map_push, lemma_assoc_map_remove, lemma_assoc_map_update, lemma_distinct_push,
};
use crate::model::{
    spec_delete, spec_get_asset, spec_get_asset_by_location, spec_get_asset_id_by_location,
    spec_get_existential_deposit, spec_get_location_by_asset, spec_register, spec_update,
    RegistryView,
};
use crate::types::{Asset, AssetView, DispatchError, Error, Event, Location, Origin};

verus! {

/// A registry outcome as a dispatched call reports it.
pub open spec fn to_dispatch_result(r: Result<(), Error>) -> Result<(), DispatchError> {
    match r {
        Ok(u) => Ok(u),
        Err(e) => Err(DispatchError::Registry(e)),
    }
}

/// The stored pairs with each record abstracted to its view.
pub open spec fn asset_pairs_of(s: Seq<(u64, Asset)>) -> Seq<(u64, AssetView)> {
    s.map_values(|p: (u64, Asset)| (p.0, p.1@))
}

/// The asset registry: records by identifier, existential deposits by
/// identifier, identifiers by location, and the log of emitted events.
pub struct Pallet {
    assets: Vec<(u64, Asset)>,
    existential_deposits: Vec<(u64, u128)>,
    location_to_asset_id: Vec<(Location, u64)>,
    events: Vec<Event>,
}

impl View for Pallet {
    type V = RegistryView;

    closed spec fn view(&self) -> RegistryView {
        RegistryView {
            assets: assoc_map(asset_pairs_of(self.assets@)),
            deposits: assoc_map(self.existential_deposits@),
            locations: assoc_map(self.location_to_asset_id@),
            events: self.events@,
        }
    }
}

/// The first index whose pair carries the identifier, if any.
fn find_asset_index(v: &Vec<(u64, Asset)>, asset_id: u64) -> (r: Option<usize>)
    ensures
        match r {
            Some(i) => i < v.len() && v@[i as int].0 == asset_id,
            None => forall|j: int| 0 <= j < v@.len() ==> (#[trigger] v@[j]).0 != asset_id,
        },
{
    let mut i: usize = 0;
    while i < v.len()
        invariant
            i <= v.len(),
            forall|j: int| 0 <= j < i ==> (#[trigger] v@[j]).0 != asset_id,
        decreases v.len() - i,
    {
        if v[i].0 == asset_id {
            return Some(i);
        }
        i = i + 1;
    }
    None
}

/// The first index whose pair carries the identifier, if any.
fn find_deposit_index(v: &Vec<(u64, u128)>, asset_id: u64) -> (r: Option<usize>)
    ensures
        match r {
            Some(i) => i < v.len() && v@[i as int].0 == asset_id,
            None => forall|j: int| 0 <= j < v@.len() ==> (#[trigger] v@[j]).0 != asset_id,
        },
{
    let mut i: usize = 0;
    while i < v.len()
        invariant
            i <= v.len(),
            forall|j: int| 0 <= j < i ==> (#[trigger] v@[j]).0 != asset_id,
        decreases v.len() - i,
    {
        if v[i].0 == asset_id {
            return Some(i);
        }
        i = i + 1;
    }
    None
}

/// The first index whose pair carries the location, if any.
fn find_location_index(v: &Vec<(Location, u64)>, location: Location) -> (r: Option<usize>)
    ensures
        match r {
            Some(i) => i < v.len() && v@[i as int].0 == location,
            None => forall|j: int| 0 <= j < v@.len() ==> (#[trigger] v@[j]).0 != location,
        },
{
    let mut i: usize = 0;
    while i < v.len()
        invariant
            i <= v.len(),
            forall|j: int| 0 <= j < i ==> (#[trigger] v@[j]).0 != location,
        decreases v.len() - i,
    {
        if v[i].0 == location {
            return Some(i);
        }
        i = i + 1;
    }
    None
}

/// Bind the identifier to the record, overwriting any previous binding.
fn upsert_asset(v: &mut Vec<(u64, Asset)>, asset: Asset)
    requires
        distinct_keys(asset_pairs_of(old(v)@)),
    ensures
        distinct_keys(asset_pairs_of(final(v)@)),
        assoc_map(asset_pairs_of(final(v)@)) == assoc_map(asset_pairs_of(old(v)@)).insert(
            asset.asset_id,
            asset@,
        ),
{
    let key = asset.asset_id;
    let ghost m = asset_pairs_of(v@);
    let ghost av = asset@;
    match find_asset_index(v, key) {
        Some(i) => {
            proof {
                assert(m[i as int].0 == key);
                lemma_assoc_map_update(m, i as int, av);
            }
            v.set(i, (key, asset));
            proof {
                assert(asset_pairs_of(v@) =~= m.update(i as int, (key, av)));
            }
        },
        None => {
            proof {
                assert forall|j: int| 0 <= j < m.len() implies (#[trigger] m[j]).0 != key by {
                    assert(m[j].0 == v@[j].0);
                }
                lemma_assoc_map_push(m, key, av);
                lemma_distinct_push(m, key, av);
            }
            v.push((key, asset));
            proof {
                assert(asset_pairs_of(v@) =~= m.push((key, av)));
            }
        },
    }
}

/// Unbind the identifier, if bound.
fn remove_asset(v: &mut Vec<(u64, Asset)>, asset_id: u64)
    requires
        distinct_keys(asset_pairs_of(old(v)@)),
    ensures
        distinct_keys(asset_pairs_of(final(v)@)),
        assoc_map(asset_pairs_of(final(v)@)) == assoc_map(asset_pairs_of(old(v)@)).remove(
            asset_id,
        ),
{
    let ghost m = asset_pairs_of(v@);
    match find_asset_index(v, asset_id) {
        Some(i) => {
            proof {
                assert(m[i as int].0 == asset_id);
                lemma_assoc_map_remove(m, i as int);
            }
            let _ = v.remove(i);
            proof {
                assert(asset_pairs_of(v@) =~= m.remove(i as int));
            }
        },
        None => {
            proof {
                assert forall|j: int| 0 <= j < m.len() implies (#[trigger] m[j]).0 != asset_id by {
                    assert(m[j].0 == v@[j].0);
                }
                lemma_assoc_map_contains(m, asset_id);
                assert(assoc_map(m).remove(asset_id) =~= assoc_map(m));
            }
        },
    }
}

/// Bind the identifier to the deposit, overwriting any previous binding.
fn upsert_deposit(v: &mut Vec<(u64, u128)>, asset_id: u64, deposit: u128)
    requires
        distinct_keys(old(v)@),
    ensures
        distinct_keys(final(v)@),
        assoc_map(final(v)@) == assoc_map(old(v)@).insert(asset_id, deposit),
{
    match find_deposit_index(v, asset_id) {
        Some(i) => {
            proof {
                lemma_assoc_map_update(v@, i as int, deposit);
            }
            v.set(i, (asset_id, deposit));
        },
        None => {
            proof {
                lemma_assoc_map_push(v@, asset_id, deposit);
                lemma_distinct_push(v@, asset_id, deposit);
            }
            v.push((asset_id, deposit));
        },
    }
}

/// Unbind the identifier, if bound.
fn remove_deposit(v: &mut Vec<(u64, u128)>, asset_id: u64)
    requires
        distinct_keys(old(v)@),
    ensures
        distinct_keys(final(v)@),
        assoc_map(final(v)@) == assoc_map(old(v)@).remove(asset_id),
{
    match find_deposit_index(v, asset_id) {
        Some(i) => {
            proof {
                lemma_assoc_map_remove(v@, i as int);
            }
            let _ = v.remove(i);
        },
        None => {
            proof {
                lemma_assoc_map_contains(v@, asset_id);
                assert(assoc_map(v@).remove(asset_id) =~= assoc_map(v@));
            }
        },
    }
}

/// Bind the location to the identifier, overwriting any previous binding.
fn upsert_location(v: &mut Vec<(Location, u64)>, location: Location, asset_id: u64)
    requires
        distinct_keys(old(v)@),
    ensures
        distinct_keys(final(v)@),
        assoc_map(final(v)@) == assoc_map(old(v)@).insert(location, asset_id),
{
    match find_location_index(v, location) {
        Some(i) => {
            proof {
                lemma_assoc_map_update(v@, i as int, asset_id);
            }
            v.set(i, (location, asset_id));
        },
        None => {
            proof {
                lemma_assoc_map_push(v@, location, asset_id);
                lemma_distinct_push(v@, location, asset_id);
            }
            v.push((location, asset_id));
        },
    }
}

/// Unbind the location, if bound.
fn remove_location(v: &mut Vec<(Location, u64)>, location: Location)
    requires
        distinct_keys(old(v)@),
    ensures
        distinct_keys(final(v)@),
        assoc_map(final(v)@) == assoc_map(old(v)@).remove(location),
{
    match find_location_index(v, location) {
        Some(i) => {
            proof {
                lemma_assoc_map_remove(v@, i as int);
            }
            let _ = v.remove(i);
        },
        None => {
            proof {
                lemma_assoc_map_contains(v@, location);
                assert(assoc_map(v@).remove(location) =~= assoc_map(v@));
            }
        },
    }
}

impl Pallet {
    /// The storage representation keeps each map's keys distinct, so that a
    /// vector of pairs denotes a map.
    pub closed spec fn well_formed(&self) -> bool {
        &&& distinct_keys(asset_pairs_of(self.assets@))
        &&& distinct_keys(self.existential_deposits@)
        &&& distinct_keys(self.location_to_asset_id@)
    }

    /// The names of the stored records, in storage order.
    pub closed spec fn spec_names(&self) -> Seq<Seq<u8>> {
        self.assets@.map_values(|p: (u64, Asset)| p.1@.name)
    }

    /// An empty registry.
    pub fn new() -> (r: Pallet)
        ensures
            r.well_formed(),
            r@ == RegistryView::empty(),
    {
        let r = Pallet {
            assets: Vec::new(),
            existential_deposits: Vec::new(),
            location_to_asset_id: Vec::new(),
            events: Vec::new(),
        };
        proof {
            assert(asset_pairs_of(r.assets@) =~= Seq::<(u64, AssetView)>::empty());
            assert(r@ =~= RegistryView::empty());
        }
        r
    }

    /// A fixed probe value for the query endpoint.
    pub fn get_value() -> (r: Option<u32>)
        ensures
            r == Some(123u32),
    {
        Some(123)
    }

    /// The events emitted so far, oldest first.
    pub fn events(&self) -> (r: &Vec<Event>)
        ensures
            r@ == self@.events,
    {
        &self.events
    }

    /// Checks if asset is registered.
    pub fn is_asset_registered(&self, asset_id: &u64) -> (r: bool)
        requires
            self.well_formed(),
        ensures
            r == self@.assets.contains_key(*asset_id),
    {
        let ghost m = asset_pairs_of(self.assets@);
        match find_asset_index(&self.assets, *asset_id) {
            Some(i) => {
                proof {
                    assert(m[i as int].0 == *asset_id);
                    lemma_assoc_map_index(m, i as int);
                }
                true
            },
            None => {
                proof {
                    assert forall|j: int| 0 <= j < m.len() implies (#[trigger] m[j]).0
                        != *asset_id by {
                        assert(m[j].0 == self.assets@[j].0);
                    }
                    lemma_assoc_map_contains(m, *asset_id);
                }
                false
            },
        }
    }

    /// The record registered under the identifier, if any.
    pub fn get_asset(&self, asset_id: u64) -> (r: Option<Asset>)
        requires
            self.well_formed(),
        ensures
            match r {
                Some(a) => spec_get_asset(self@, asset_id) == Some(a@),
                None => spec_get_asset(self@, asset_id) is None,
            },
    {
        let ghost m = asset_pairs_of(self.assets@);
        match find_asset_index(&self.assets, asset_id) {
            Some(i) => {
                proof {
                    assert(m[i as int].0 == asset_id);
                    lemma_assoc_map_index(m, i as int);
                    assert(m[i as int].1 == self.assets@[i as int].1@);
                }
                Some(self.assets[i].1.clone())
            },
            None => {
                proof {
                    assert forall|j: int| 0 <= j < m.len() implies (#[trigger] m[j]).0
                        != asset_id by {
                        assert(m[j].0 == self.assets@[j].0);
                    }
                    lemma_assoc_map_contains(m, asset_id);
                }
                None
            },
        }
    }

    /// The name of the registered record, if any.
    pub fn get_asset_name(&self, asset_id: u64) -> (r: Option<Vec<u8>>)
        requires
            self.well_formed(),
        ensures
            match r {
                Some(n) => (spec_get_asset(self@, asset_id) matches Some(a) && a.name == n@),
                None => spec_get_asset(self@, asset_id) is None,
            },
    {
        match self.get_asset(asset_id) {
            Some(a) => Some(a.name),
            None => None,
        }
    }

    /// The display precision of the registered record, if any.
    pub fn get_asset_decimals(&self, asset_id: u64) -> (r: Option<u8>)
        requires
            self.well_formed(),
        ensures
            match r {
                Some(d) => (spec_get_asset(self@, asset_id) matches Some(a) && a.decimals == d),
                None => spec_get_asset(self@, asset_id) is None,
            },
    {
        match self.get_asset(asset_id) {
            Some(a) => Some(a.decimals),
            None => None,
        }
    }

    /// The existential deposit recorded for the identifier, if any.
    pub fn get_asset_existential_deposit(&self, asset_id: u64) -> (r: Option<u128>)
        requires
            self.well_formed(),
        ensures
            r == spec_get_existential_deposit(self@, asset_id),
    {
        match find_deposit_index(&self.existential_deposits, asset_id) {
            Some(i) => {
                proof {
                    lemma_assoc_map_index(self.existential_deposits@, i as int);
                }
                Some(self.existential_deposits[i].1)
            },
            None => {
                proof {
                    lemma_assoc_map_contains(self.existential_deposits@, asset_id);
                }
                None
            },
        }
    }

    /// The identifier the location resolves to, if any.
    pub fn get_asset_id_by_location(&self, location: Location) -> (r: Option<u64>)
        requires
            self.well_formed(),
        ensures
            r == spec_get_asset_id_by_location(self@, location),
    {
        match find_location_index(&self.location_to_asset_id, location) {
            Some(i) => {
                proof {
                    lemma_assoc_map_index(self.location_to_asset_id@, i as int);
                }
                Some(self.location_to_asset_id[i].1)
            },
            None => {
                proof {
                    lemma_assoc_map_contains(self.location_to_asset_id@, location);
                }
                None
            },
        }
    }

    /// The record the location resolves to, if any.
    pub fn get_asset_by_location(&self, location: Location) -> (r: Option<Asset>)
        requires
            self.well_formed(),
        ensures
            match r {
                Some(a) => spec_get_asset_by_location(self@, location) == Some(a@),
                None => spec_get_asset_by_location(self@, location) is None,
            },
    {
        match self.get_asset_id_by_location(location) {
            Some(asset_id) => self.get_asset(asset_id),
            None => None,
        }
    }

    /// The location recorded for the identifier, if the record exists and
    /// carries one.
    pub fn get_location_by_asset(&self, asset_id: u64) -> (r: Option<Location>)
        requires
            self.well_formed(),
        ensures
            r == spec_get_location_by_asset(self@, asset_id),
    {
        let ghost m = asset_pairs_of(self.assets@);
        match find_asset_index(&self.assets, asset_id) {
            Some(i) => {
                proof {
                    assert(m[i as int].0 == asset_id);
                    lemma_assoc_map_index(m, i as int);
                    assert(m[i as int].1 == self.assets@[i as int].1@);
                }
                self.assets[i].1.location
            },
            None => {
                proof {
                    assert forall|j: int| 0 <= j < m.len() implies (#[trigger] m[j]).0
                        != asset_id by {
                        assert(m[j].0 == self.assets@[j].0);
                    }
                    lemma_assoc_map_contains(m, asset_id);
                }
                None
            },
        }
    }

    /// The name of every stored record, in storage order; the order is an
    /// artefact of the store and carries no meaning.
    pub fn get_assets_names(&self) -> (r: Vec<Vec<u8>>)
        requires
            self.well_formed(),
        ensures
            r@.len() == self.spec_names().len(),
            forall|i: int| 0 <= i < r@.len() ==> (#[trigger] r@[i])@ == self.spec_names()[i],
    {
        let mut names: Vec<Vec<u8>> = Vec::new();
        let mut i: usize = 0;
        while i < self.assets.len()
            invariant
                i <= self.assets@.len(),
                names@.len() == i,
                forall|j: int| 0 <= j < i ==> (#[trigger] names@[j])@ == self.spec_names()[j],
            decreases self.assets@.len() - i,
        {
            let name = self.assets[i].1.name.clone();
            proof {
                assert(name@ =~= self.assets@[i as int].1.name@);
            }
            names.push(name);
            i = i + 1;
        }
        names
    }

    /// Registers asset.
    pub fn do_register_asset(&mut self, asset: Asset) -> (r: Result<(), Error>)
        requires
            old(self).well_formed(),
        ensures
            final(self).well_formed(),
            (final(self)@, r) == spec_register(old(self)@, asset@),
    {
        let ghost v0 = self@;
        let asset_id = asset.asset_id;
        if self.is_asset_registered(&asset_id) {
            return Err(Error::AssetAlreadyRegistered);
        }
        upsert_deposit(&mut self.existential_deposits, asset_id, asset.existential_deposit);
        let location = asset.location;
        let ghost av = asset@;
        upsert_asset(&mut self.assets, asset);
        if let Some(l) = location {
            upsert_location(&mut self.location_to_asset_id, l, asset_id);
        }
        self.events.push(Event::AssetRegistered(asset_id));
        proof {
            assert(self@ =~= spec_register(v0, av).0);
        }
        Ok(())
    }

    /// Update asset.
    pub fn do_update_asset(&mut self, asset: Asset) -> (r: Result<(), Error>)
        requires
            old(self).well_formed(),
        ensures
            final(self).well_formed(),
            (final(self)@, r) == spec_update(old(self)@, asset@),
    {
        let ghost v0 = self@;
        let ghost m = asset_pairs_of(self.assets@);
        let asset_id = asset.asset_id;
        let old_location: Option<Location> = match find_asset_index(&self.assets, asset_id) {
            Some(i) => {
                proof {
                    assert(m[i as int].0 == asset_id);
                    lemma_assoc_map_index(m, i as int);
                    assert(m[i as int].1 == self.assets@[i as int].1@);
                }
                self.assets[i].1.location
            },
            None => {
                proof {
                    assert forall|j: int| 0 <= j < m.len() implies (#[trigger] m[j]).0
                        != asset_id by {
                        assert(m[j].0 == self.assets@[j].0);
                    }
                    lemma_assoc_map_contains(m, asset_id);
                }
                return Err(Error::AssetDoesNotExist);
            },
        };
        upsert_deposit(&mut self.existential_deposits, asset_id, asset.existential_deposit);
        let new_location = asset.location;
        let ghost av = asset@;
        upsert_asset(&mut self.assets, asset);
        if let Some(old_l) = old_location {
            remove_location(&mut self.location_to_asset_id, old_l);
        }
        if let Some(new_l) = new_location {
            upsert_location(&mut self.location_to_asset_id, new_l, asset_id);
        }
        self.events.push(Event::AssetUpdated(asset_id));
        proof {
            assert(self@ =~= spec_update(v0, av).0);
        }
        Ok(())
    }

    /// Delete asset.  The record, its existential deposit, and its location
    /// mapping (when one was set) are removed together, so that no location
    /// keeps resolving to a deleted record.
    pub fn do_delete_asset(&mut self, asset_id: u64) -> (r: Result<(), Error>)
        requires
            old(self).well_formed(),
        ensures
            final(self).well_formed(),
            (final(self)@, r) == spec_delete(old(self)@, asset_id),
    {
        let ghost v0 = self@;
        let ghost m = asset_pairs_of(self.assets@);
        let old_location: Option<Location> = match find_asset_index(&self.assets, asset_id) {
            Some(i) => {
                proof {
                    assert(m[i as int].0 == asset_id);
                    lemma_assoc_map_index(m, i as int);
                    assert(m[i as int].1 == self.assets@[i as int].1@);
                }
                self.assets[i].1.location
            },
            None => {
                proof {
                    assert forall|j: int| 0 <= j < m.len() implies (#[trigger] m[j]).0
                        != asset_id by {
                        assert(m[j].0 == self.assets@[j].0);
                    }
                    lemma_assoc_map_contains(m, asset_id);
                }
                return Err(Error::AssetDoesNotExist);
            },
        };
        remove_deposit(&mut self.existential_deposits, asset_id);
        remove_asset(&mut self.assets, asset_id);
        if let Some(l) = old_location {
            remove_location(&mut self.location_to_asset_id, l);
        }
        self.events.push(Event::AssetDeleted(asset_id));
        proof {
            assert(self@ =~= spec_delete(v0, asset_id).0);
        }
        Ok(())
    }

    /// Registers asset, for the privileged origin only.
    pub fn register_asset(&mut self, origin: Origin, asset: Asset) -> (r: Result<
        (),
        DispatchError,
    >)
        requires
            old(self).well_formed(),
        ensures
            final(self).well_formed(),
            origin != Origin::Root ==> final(self)@ == old(self)@ && r == Err::<
                (),
                DispatchError,
            >(DispatchError::BadOrigin),
            origin == Origin::Root ==> ({
                let (v2, r2) = spec_register(old(self)@, asset@);
                final(self)@ == v2 && r == to_dispatch_result(r2)
            }),
    {
        match origin {
            Origin::Root => {},
            _ => {
                return Err(DispatchError::BadOrigin);
            },
        }
        match self.do_register_asset(asset) {
            Ok(()) => Ok(()),
            Err(e) => Err(DispatchError::Registry(e)),
        }
    }

    /// Update asset, for the privileged origin only.
    pub fn update_asset(&mut self, origin: Origin, asset: Asset) -> (r: Result<(), DispatchError>)
        requires
            old(self).well_formed(),
        ensures
            final(self).well_formed(),
            origin != Origin::Root ==> final(self)@ == old(self)@ && r == Err::<
                (),
                DispatchError,
            >(DispatchError::BadOrigin),
            origin == Origin::Root ==> ({
                let (v2, r2) = spec_update(old(self)@, asset@);
                final(self)@ == v2 && r == to_dispatch_result(r2)
            }),
    {
        match origin {
            Origin::Root => {},
            _ => {
                return Err(DispatchError::BadOrigin);
            },
        }
        match self.do_update_asset(asset) {
            Ok(()) => Ok(()),
            Err(e) => Err(DispatchError::Registry(e)),
        }
    }

    /// Delete asset, for the privileged origin only.
    pub fn delete_asset(&mut self, origin: Origin, asset_id: u64) -> (r: Result<
        (),
        DispatchError,
    >)
        requires
            old(self).well_formed(),
        ensures
            final(self).well_formed(),
            origin != Origin::Root ==> final(self)@ == old(self)@ && r == Err::<
                (),
                DispatchError,
            >(DispatchError::BadOrigin),
            origin == Origin::Root ==> ({
                let (v2, r2) = spec_delete(old(self)@, asset_id);
                final(self)@ == v2 && r == to_dispatch_result(r2)
            }),
    {
        match origin {
            Origin::Root => {},
            _ => {
                return Err(DispatchError::BadOrigin);
            },
        }
        match self.do_delete_asset(asset_id) {
            Ok(()) => Ok(()),
            Err(e) => Err(DispatchError::Registry(e)),
        }
    }
}

/// Some registered record carries this name.
pub open spec fn is_registered_name(v: RegistryView, n: Seq<u8>) -> bool {
    exists|id: u64| #[trigger] v.assets.contains_key(id) && v.assets[id].name == n
}

/// The listed names agree with the registered records: every listed name is
/// some registered record's name, and every registered record's name is
/// listed.
pub proof fn lemma_names_match_registry(p: &Pallet)
    requires
        p.well_formed(),
    ensures
        forall|i: int|
            0 <= i < p.spec_names().len() ==> is_registered_name(
                p@,
                #[trigger] p.spec_names()[i],
            ),
        forall|id: u64| #[trigger]
            p@.assets.contains_key(id) ==> p.spec_names().contains(p@.assets[id].name),
{
    let m = asset_pairs_of(p.assets@);
    assert forall|i: int| 0 <= i < p.spec_names().len() implies is_registered_name(
        p@,
        #[trigger] p.spec_names()[i],
    ) by {
        lemma_assoc_map_index(m, i);
        assert(p@.assets.contains_key(m[i].0) && p@.assets[m[i].0].name == p.spec_names()[i]);
    }
    assert forall|id: u64| #[trigger] p@.assets.contains_key(id) implies p.spec_names().contains(
        p@.assets[id].name,
    ) by {
        lemma_assoc_map_contains(m, id);
        let i = choose|i: int| 0 <= i < m.len() && (#[trigger] m[i]).0 == id;
        lemma_assoc_map_index(m, i);
        assert(p.spec_names()[i] == p@.assets[id].name);
    }
}

} // verus!
