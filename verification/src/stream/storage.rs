//! What a stream records.
use vstd::prelude::*;

use crate::address::Address;

verus! {

/// The flag of a stream that is paused.
pub const FLAG_PAUSED: u32 = 1;

/// The flag of a stream that is cancelled.
pub const FLAG_CANCELLED: u32 = 2;

/// Why a stream refused a call.
#[derive(Copy, Clone, Debug, PartialEq, Eq, PartialOrd, Ord, Structural)]
pub enum Error {
    /// The stream is cancelled.
    StreamCancelled,
}

/// The full state of a stream.
#[derive(Clone, Copy, Debug, PartialEq, Eq, Structural)]
pub struct StreamInfo {
    pub sender: Address,
    pub recipient: Address,
    pub token: Address,
    pub rate_per_second: i128,
    pub start_time: u64,
    pub end_time: u64,
    pub withdrawn: i128,
    pub paused_at: u64,
    pub flags: u32,
}

/// `flag` is among `flags`.
pub open spec fn has_flag(flags: u32, flag: u32) -> bool {
    flags & flag != 0
}

impl StreamInfo {
    /// Whether the stream is paused.
    pub fn is_paused(&self) -> (paused: bool)
        ensures
            paused == has_flag(self.flags, FLAG_PAUSED),
    {
        self.flags & FLAG_PAUSED != 0
    }

    /// Whether the stream is cancelled.
    pub fn is_cancelled(&self) -> (cancelled: bool)
        ensures
            cancelled == has_flag(self.flags, FLAG_CANCELLED),
    {
        self.flags & FLAG_CANCELLED != 0
    }
}

/// The entries that a stream has on the ledger.
///
/// `config` holds the whole state. A stream from before that entry was
/// introduced has one entry per field instead.
#[derive(Clone, Copy, Debug, PartialEq, Eq, Structural)]
pub struct StreamStore {
    pub config: Option<StreamInfo>,
    pub sender: Option<Address>,
    pub recipient: Option<Address>,
    pub token: Option<Address>,
    pub rate_per_second: Option<i128>,
    pub start_time: Option<u64>,
    pub end_time: Option<u64>,
    pub withdrawn: Option<i128>,
    pub paused_at: Option<u64>,
    pub flags: Option<u32>,
}

impl StreamStore {
    /// The entries that every stream must have are there.
    pub open spec fn is_initialized(self) -> bool {
        ||| self.config is Some
        ||| {
            &&& self.sender is Some
            &&& self.recipient is Some
            &&& self.token is Some
            &&& self.rate_per_second is Some
            &&& self.start_time is Some
            &&& self.end_time is Some
        }
    }

    /// The state that the entries stand for: that of `config` where it is
    /// there, and otherwise that of the single fields, the last three of which
    /// are zero where they are missing.
    pub open spec fn info(self) -> StreamInfo {
        match self.config {
            Some(info) => info,
            None => StreamInfo {
                sender: self.sender->0,
                recipient: self.recipient->0,
                token: self.token->0,
                rate_per_second: self.rate_per_second->0,
                start_time: self.start_time->0,
                end_time: self.end_time->0,
                withdrawn: match self.withdrawn {
                    Some(withdrawn) => withdrawn,
                    None => 0,
                },
                paused_at: match self.paused_at {
                    Some(paused_at) => paused_at,
                    None => 0,
                },
                flags: match self.flags {
                    Some(flags) => flags,
                    None => 0,
                },
            },
        }
    }

    /// These entries with `info` as the whole state.
    pub open spec fn with_info(self, info: StreamInfo) -> StreamStore {
        StreamStore { config: Some(info), ..self }
    }

    /// These entries with another withdrawn amount.
    pub open spec fn with_withdrawn(self, amount: i128) -> StreamStore {
        self.with_info(StreamInfo { withdrawn: amount, ..self.info() })
    }

    /// These entries with the pause flag set or cleared.
    pub open spec fn with_paused(self, paused: bool) -> StreamStore {
        self.with_info(
            StreamInfo {
                flags: if paused {
                    self.info().flags | FLAG_PAUSED
                } else {
                    self.info().flags & !FLAG_PAUSED
                },
                ..self.info()
            },
        )
    }

    /// These entries with the cancellation flag set.
    pub open spec fn with_cancelled(self) -> StreamStore {
        self.with_info(StreamInfo { flags: self.info().flags | FLAG_CANCELLED, ..self.info() })
    }
}

} // verus!
