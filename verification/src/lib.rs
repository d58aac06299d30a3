//! Block height and per-account nonce tracking for a modular runtime.
//!
//! The state module [`system::Pallet`] is generic over a [`system::Config`],
//! which names the account identifier, block number and nonce types. Its
//! behaviour is stated against the mathematical state in [`model`], and the
//! numeric types it runs on are described by [`counter::Counter`].

pub mod counter;
pub mod model;
pub mod system;
