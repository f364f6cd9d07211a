//! A verified asset registry for a multi-token chain runtime.
//!
//! The registry keeps three coupled maps — asset records by identifier,
//! existential deposits by identifier, and asset identifiers by cross-chain
//! location — and maintains their referential consistency under
//! registration, update, and deletion.  On top of the registry sit the
//! conversions used during cross-chain message settlement and the dust
//! policy that decides whether an unclaimed inbound asset is captured as
//! revenue or trapped for a later claim.

pub mod kv;
pub mod laws;
pub mod model;
pub mod registry;
pub mod rpc;
pub mod types;
pub mod xcm_config;
