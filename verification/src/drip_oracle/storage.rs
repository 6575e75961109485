//! What the price oracle records.
use vstd::prelude::*;

use crate::address::Address;

verus! {

/// A single price observation submitted by a whitelisted oracle.
#[derive(Clone, Copy, Debug, PartialEq, Eq, Structural)]
pub struct Observation {
    pub price: i128,
    /// When the price was observed, in ledger seconds. Within one asset's
    /// buffer the timestamps increase from oldest to newest.
    pub timestamp: u64,
    /// The address that submitted the observation.
    pub oracle: Address,
}

/// Per-asset parameters set by the admin.
#[derive(Clone, Copy, Debug, PartialEq, Eq, Structural)]
pub struct AssetConfig {
    /// The precision exponent of the submitted prices: a price stands for
    /// `price / 10^decimals`.
    pub decimals: u32,
    /// The look-back window of the average, in seconds.
    pub window_size: u64,
    /// The greatest age of the newest observation at which the average may
    /// still be read, in seconds. It may be shorter than `window_size`.
    pub max_staleness: u64,
}

/// The entries that the price oracle keeps on the ledger.
///
/// The admin and the configurations are kept with the contract instance, whose
/// lifetime is extended when an asset is configured. The whitelists and the
/// observation buffers are persistent entries, each with a lifetime of its own:
/// that of a whitelist is extended when it changes and with every accepted
/// observation, that of a buffer with every accepted observation.
#[derive(Clone, Copy, Debug, PartialEq, Eq, Structural)]
pub enum DataKey {
    /// The admin address.
    Admin,
    /// The parameters of an asset.
    AssetConfig(Address),
    /// The whitelist of an asset, in insertion order.
    Oracles(Address),
    /// The recent observations of an asset, oldest first.
    Observations(Address),
}

} // verus!
