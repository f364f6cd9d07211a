//! The off-chain query endpoint over the registry.
//!
//! The handler holds a shared reference to the chain state it queries and
//! answers the two read-only queries the endpoint serves.  Transport,
//! request decoding, and error wrapping belong to the server that hosts
//! the handler, not to this crate.

use std::sync::Arc;

use vstd::prelude::*;

use crate::model::RegistryView;
use crate::registry::Pallet;

verus! {

/// The query handler: answers read-only registry queries from the state it
/// was given.
pub struct AssetsRegistryPallet {
    client: Arc<Pallet>,
}

impl View for AssetsRegistryPallet {
    type V = RegistryView;

    closed spec fn view(&self) -> RegistryView {
        (*self.client)@
    }
}

impl AssetsRegistryPallet {
    /// The handler answers from a well-formed client state.
    pub closed spec fn well_formed(&self) -> bool {
        (*self.client).well_formed()
    }

    /// The names the handler reports, in the client's storage order.
    pub closed spec fn spec_names(&self) -> Seq<Seq<u8>> {
        (*self.client).spec_names()
    }

    /// A handler over the given client state.
    pub fn new(client: Arc<Pallet>) -> (r: AssetsRegistryPallet)
        ensures
            r@ == (*client)@,
            r.spec_names() == (*client).spec_names(),
            r.well_formed() <==> (*client).well_formed(),
    {
        AssetsRegistryPallet { client }
    }

    /// The registry's fixed probe value.
    pub fn get_value(&self) -> (r: Option<u32>)
        ensures
            r == Some(123u32),
    {
        Pallet::get_value()
    }

    /// The name of every registered asset.
    pub fn get_assets_names(&self) -> (r: Vec<Vec<u8>>)
        requires
            self.well_formed(),
        ensures
            r@.len() == self.spec_names().len(),
            forall|i: int| 0 <= i < r@.len() ==> (#[trigger] r@[i])@ == self.spec_names()[i],
    {
        self.client.get_assets_names()
    }
}

} // verus!
