//! The errors of the price oracle.
use vstd::prelude::*;

verus! {

/// Why the price oracle refused a call.
#[derive(Copy, Clone, Debug, PartialEq, Eq, PartialOrd, Ord, Structural)]
pub enum Error {
    /// An admin call came before `init`.
    NotInitialized,
    /// `init` was called more than once.
    AlreadyInitialized,
    /// The asset has no recorded `AssetConfig`.
    AssetNotConfigured,
    /// The submitting address is not on the asset's whitelist.
    OracleNotWhitelisted,
    /// The timestamp is not later than the newest stored observation, or it
    /// lies further in the future than the clock-drift tolerance allows.
    TimestampInvalid,
    /// The newest observation is older than the asset's `max_staleness`. The
    /// reader must wait for a fresh push or treat the feed as offline.
    PriceStale,
    /// No buffered observation lies inside the asset's `window_size`.
    InsufficientSamples,
    /// The weighted sum left the range of `i128`, an observation to be averaged
    /// lies ahead of the clock, or no time has passed over which to average.
    ArithmeticOverflow,
    /// The price is zero or negative.
    InvalidPrice,
    /// The asset parameters were refused: too many decimals, or a zero window
    /// or staleness bound.
    InvalidConfig,
    /// The caller is not the admin.
    NotAuthorized,
}

/// The number under which clients see an error.
pub open spec fn error_code(error: Error) -> u32 {
    match error {
        Error::NotInitialized => 1,
        Error::AlreadyInitialized => 2,
        Error::AssetNotConfigured => 3,
        Error::OracleNotWhitelisted => 4,
        Error::TimestampInvalid => 5,
        Error::PriceStale => 6,
        Error::InsufficientSamples => 7,
        Error::ArithmeticOverflow => 8,
        Error::InvalidPrice => 9,
        Error::InvalidConfig => 10,
        Error::NotAuthorized => 11,
    }
}

impl Error {
    /// The number under which clients see this error.
    pub fn code(self) -> (code: u32)
        ensures
            code == error_code(self),
    {
        match self {
            Error::NotInitialized => 1,
            Error::AlreadyInitialized => 2,
            Error::AssetNotConfigured => 3,
            Error::OracleNotWhitelisted => 4,
            Error::TimestampInvalid => 5,
            Error::PriceStale => 6,
            Error::InsufficientSamples => 7,
            Error::ArithmeticOverflow => 8,
            Error::InvalidPrice => 9,
            Error::InvalidConfig => 10,
            Error::NotAuthorized => 11,
        }
    }
}

/// Clients can tell the errors apart by their numbers.
pub proof fn error_codes_are_distinct(a: Error, b: Error)
    ensures
        error_code(a) == error_code(b) <==> a == b,
{
}

} // verus!
