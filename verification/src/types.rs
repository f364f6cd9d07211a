//! The registry's data model: locations, asset records, errors, events, and
//! call origins, all as plain values.

use vstd::prelude::*;

verus! {

/// A cross-chain location descriptor: how many parent hops lead to the
/// consensus system that hosts the asset, and the interior path within it,
/// encoded as a single value (a parachain identifier, an account alias, or
/// another junction key).
#[derive(Clone, Copy, PartialEq, Eq, Structural, Debug)]
pub struct Location {
    pub parents: u8,
    pub interior: u64,
}

/// One registered asset: an identifier, display precision, a human-readable
/// name, the minimum economically viable balance, and — for assets that live
/// on another chain — a cross-chain location.
#[derive(Debug, PartialEq, Eq)]
pub struct Asset {
    pub asset_id: u64,
    pub decimals: u8,
    pub name: Vec<u8>,
    pub existential_deposit: u128,
    pub location: Option<Location>,
}

/// The mathematical shape of an [`Asset`]: the same fields with the name as
/// a sequence of bytes.
#[verifier::ext_equal]
pub ghost struct AssetView {
    pub asset_id: u64,
    pub decimals: u8,
    pub name: Seq<u8>,
    pub existential_deposit: u128,
    pub location: Option<Location>,
}

impl View for Asset {
    type V = AssetView;

    open spec fn view(&self) -> AssetView {
        AssetView {
            asset_id: self.asset_id,
            decimals: self.decimals,
            name: self.name@,
            existential_deposit: self.existential_deposit,
            location: self.location,
        }
    }
}

impl Clone for Asset {
    /// A cloned record describes the same asset.
    fn clone(&self) -> (res: Self)
        ensures
            res@ == self@,
    {
        let name = self.name.clone();
        proof {
            assert(name@ =~= self.name@);
        }
        Asset {
            asset_id: self.asset_id,
            decimals: self.decimals,
            name,
            existential_deposit: self.existential_deposit,
            location: self.location,
        }
    }
}

/// The two ways a registry mutation can fail.
#[derive(Clone, Copy, PartialEq, Eq, Structural, Debug)]
pub enum Error {
    /// Asset has already been registered.
    AssetAlreadyRegistered,
    /// Asset does not exist.
    AssetDoesNotExist,
}

/// The registry's event log entries.
#[derive(Clone, Copy, PartialEq, Eq, Structural, Debug)]
pub enum Event {
    /// New asset has been registered.
    AssetRegistered(u64),
    /// Asset has been updated.
    AssetUpdated(u64),
    /// Asset has been deleted.
    AssetDeleted(u64),
}

/// The capability under which a call is dispatched.  Mutations demand the
/// root origin; the caller boundary is expected to have authenticated it.
#[derive(Clone, Copy, PartialEq, Eq, Structural, Debug)]
pub enum Origin {
    /// The privileged (governance) origin.
    Root,
    /// A transaction signed by the given account.
    Signed(u64),
    /// A call with no attributable origin.
    Unsigned,
}

/// What a dispatched call can report: an authorization failure, checked
/// before any registry logic runs, or one of the registry's own errors.
#[derive(Clone, Copy, PartialEq, Eq, Structural, Debug)]
pub enum DispatchError {
    /// The origin is not the privileged one.
    BadOrigin,
    /// The registry refused the mutation.
    Registry(Error),
}

} // verus!
