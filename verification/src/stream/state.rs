//! Reading and writing the state of a stream.
use vstd::prelude::*;

use crate::stream::storage::{
    has_flag, Error, StreamInfo, StreamStore, FLAG_CANCELLED, FLAG_PAUSED,
};

verus! {

/// Reads the whole state of a stream: from the one entry that holds it, or, for
/// an older stream, field by field.
pub fn load(store: &StreamStore) -> (info: StreamInfo)
    requires
        store.is_initialized(),
    ensures
        info == store.info(),
{
    if let Some(info) = store.config {
        return info;
    }
    StreamInfo {
        sender: store.sender.unwrap(),
        recipient: store.recipient.unwrap(),
        token: store.token.unwrap(),
        rate_per_second: store.rate_per_second.unwrap(),
        start_time: store.start_time.unwrap(),
        end_time: store.end_time.unwrap(),
        withdrawn: store.withdrawn.unwrap_or(0),
        paused_at: store.paused_at.unwrap_or(0),
        flags: store.flags.unwrap_or(0),
    }
}

/// Writes the whole state of a stream.
pub fn save(store: &mut StreamStore, info: &StreamInfo)
    ensures
        *final(store) == old(store).with_info(*info),
{
    store.config = Some(*info);
}

/// Sets the withdrawn amount and leaves the rest of the state.
pub fn save_withdrawn(store: &mut StreamStore, amount: i128)
    requires
        old(store).is_initialized(),
    ensures
        *final(store) == old(store).with_withdrawn(amount),
{
    let mut info = load(store);
    info.withdrawn = amount;
    save(store, &info);
}

/// Sets or clears the pause flag and leaves the rest of the state.
pub fn set_paused(store: &mut StreamStore, paused: bool)
    requires
        old(store).is_initialized(),
    ensures
        *final(store) == old(store).with_paused(paused),
{
    let mut info = load(store);
    if paused {
        info.flags = info.flags | FLAG_PAUSED;
    } else {
        info.flags = info.flags & !FLAG_PAUSED;
    }
    save(store, &info);
}

/// Sets the cancellation flag and leaves the rest of the state.
pub fn set_cancelled(store: &mut StreamStore)
    requires
        old(store).is_initialized(),
    ensures
        *final(store) == old(store).with_cancelled(),
{
    let mut info = load(store);
    info.flags = info.flags | FLAG_CANCELLED;
    save(store, &info);
}

/// Refuses a cancelled stream.
pub fn assert_not_cancelled(info: &StreamInfo) -> (r: Result<(), Error>)
    ensures
        r == if has_flag(info.flags, FLAG_CANCELLED) {
            Err(Error::StreamCancelled)
        } else {
            Ok(())
        },
{
    if info.is_cancelled() {
        Err(Error::StreamCancelled)
    } else {
        Ok(())
    }
}

// ─── What holds of the state as a whole ──────────────────────────────

/// What was saved is what is loaded, whatever was stored before.
pub proof fn saved_state_is_loaded(store: StreamStore, info: StreamInfo)
    ensures
        store.with_info(info).is_initialized(),
        store.with_info(info).info() == info,
{
}

/// Loading and saving again changes no state, and moves a stream that was kept
/// field by field into one entry.
pub proof fn saving_what_was_loaded_keeps_the_state(store: StreamStore)
    requires
        store.is_initialized(),
    ensures
        store.with_info(store.info()).info() == store.info(),
        store.with_info(store.info()).config == Some(store.info()),
{
}

/// A change of the withdrawn amount shows in that amount alone, and the last
/// such change counts.
pub proof fn withdrawn_alone_changes(store: StreamStore, first: i128, amount: i128)
    ensures
        store.with_withdrawn(amount).info() == (StreamInfo {
            withdrawn: amount,
            ..store.info()
        }),
        store.with_withdrawn(first).with_withdrawn(amount) == store.with_withdrawn(amount),
{
}

/// Pausing sets the pause flag and resuming clears it. Every other flag, and
/// every other field, stays.
pub proof fn pausing_concerns_the_pause_flag(store: StreamStore, paused: bool, flag: u32)
    requires
        flag & FLAG_PAUSED == 0,
    ensures
        has_flag(store.with_paused(paused).info().flags, FLAG_PAUSED) == paused,
        has_flag(store.with_paused(paused).info().flags, flag) == has_flag(
            store.info().flags,
            flag,
        ),
        store.with_paused(paused).info() == (StreamInfo {
            flags: store.with_paused(paused).info().flags,
            ..store.info()
        }),
{
    let flags = store.info().flags;
    assert((flags | 1u32) & 1u32 != 0) by (bit_vector);
    assert((flags & !1u32) & 1u32 == 0) by (bit_vector);
    assert(flag & 1u32 == 0 ==> (flags | 1u32) & flag == flags & flag) by (bit_vector);
    assert(flag & 1u32 == 0 ==> (flags & !1u32) & flag == flags & flag) by (bit_vector);
}

/// Resuming a paused stream gives back the flags of one that was not paused.
pub proof fn resuming_undoes_pausing(store: StreamStore)
    requires
        !has_flag(store.info().flags, FLAG_PAUSED),
    ensures
        store.with_paused(true).with_paused(false).info() == store.info(),
{
    let flags = store.info().flags;
    assert(flags & 1u32 == 0 ==> (flags | 1u32) & !1u32 == flags) by (bit_vector);
}

/// Cancelling sets the cancellation flag. Every other flag, and every other
/// field, stays.
pub proof fn cancelling_concerns_the_cancellation_flag(store: StreamStore, flag: u32)
    requires
        flag & FLAG_CANCELLED == 0,
    ensures
        has_flag(store.with_cancelled().info().flags, FLAG_CANCELLED),
        has_flag(store.with_cancelled().info().flags, flag) == has_flag(store.info().flags, flag),
        store.with_cancelled().info() == (StreamInfo {
            flags: store.with_cancelled().info().flags,
            ..store.info()
        }),
{
    let flags = store.info().flags;
    assert((flags | 2u32) & 2u32 != 0) by (bit_vector);
    assert(flag & 2u32 == 0 ==> (flags | 2u32) & flag == flags & flag) by (bit_vector);
}

/// A cancelled stream stays cancelled, whatever is paused, resumed, withdrawn
/// or cancelled again.
pub proof fn cancellation_is_final(store: StreamStore, paused: bool, amount: i128)
    requires
        has_flag(store.info().flags, FLAG_CANCELLED),
    ensures
        has_flag(store.with_paused(paused).info().flags, FLAG_CANCELLED),
        has_flag(store.with_withdrawn(amount).info().flags, FLAG_CANCELLED),
        store.with_cancelled().info() == store.info(),
{
    let flags = store.info().flags;
    assert(flags & 2u32 != 0 ==> (flags | 1u32) & 2u32 != 0) by (bit_vector);
    assert(flags & 2u32 != 0 ==> (flags & !1u32) & 2u32 != 0) by (bit_vector);
    assert(flags & 2u32 != 0 ==> flags | 2u32 == flags) by (bit_vector);
}

// ─── What the entries and the flags stand for ────────────────────────

/// A stream has a state where the one entry is there, or else the six fields
/// that every stream has. The state is that of the one entry; without it, that
/// of the fields, and what is missing of the last three is zero.
pub proof fn state_is_read_from_the_entries(store: StreamStore)
    ensures
        store.is_initialized() <==> store.config is Some || (store.sender is Some
            && store.recipient is Some && store.token is Some && store.rate_per_second is Some
            && store.start_time is Some && store.end_time is Some),
        store.config is Some ==> store.info() == store.config->0,
        store.config is None ==> {
            &&& store.info().sender == store.sender->0
            &&& store.info().recipient == store.recipient->0
            &&& store.info().token == store.token->0
            &&& store.info().rate_per_second == store.rate_per_second->0
            &&& store.info().start_time == store.start_time->0
            &&& store.info().end_time == store.end_time->0
            &&& store.info().withdrawn == if store.withdrawn is Some {
                store.withdrawn->0
            } else {
                0
            }
            &&& store.info().paused_at == if store.paused_at is Some {
                store.paused_at->0
            } else {
                0
            }
            &&& store.info().flags == if store.flags is Some {
                store.flags->0
            } else {
                0
            }
        },
{
}

/// Every write goes to the one entry and leaves the single fields alone.
pub proof fn writes_go_to_the_one_entry(
    store: StreamStore,
    info: StreamInfo,
    amount: i128,
    paused: bool,
)
    ensures
        store.with_info(info) == (StreamStore { config: Some(info), ..store }),
        store.with_withdrawn(amount) == (StreamStore {
            config: Some(StreamInfo { withdrawn: amount, ..store.info() }),
            ..store
        }),
        store.with_paused(paused) == (StreamStore {
            config: Some(
                StreamInfo { flags: store.with_paused(paused).info().flags, ..store.info() },
            ),
            ..store
        }),
        store.with_cancelled() == (StreamStore {
            config: Some(StreamInfo { flags: store.with_cancelled().info().flags, ..store.info() }),
            ..store
        }),
{
}

/// The pause flag is the lowest bit and the cancellation flag the next one.
/// Pausing sets the one, resuming clears it, cancelling sets the other, and no
/// other bit moves.
pub proof fn flags_are_single_bits(store: StreamStore, paused: bool, bit: u32)
    requires
        bit < 32,
    ensures
        ({
            let before = store.info().flags;
            let toggled = store.with_paused(paused).info().flags;
            let cancelled = store.with_cancelled().info().flags;
            &&& has_flag(before, FLAG_PAUSED) <==> before % 2 == 1
            &&& has_flag(before, FLAG_CANCELLED) <==> (before / 2) % 2 == 1
            &&& (toggled >> bit) & 1 == if bit == 0 {
                if paused {
                    1
                } else {
                    0
                }
            } else {
                (before >> bit) & 1
            }
            &&& (cancelled >> bit) & 1 == if bit == 1 {
                1
            } else {
                (before >> bit) & 1
            }
        }),
{
    let flags = store.info().flags;
    assert(flags & 1u32 != 0 <==> flags % 2 == 1) by (bit_vector);
    assert(flags & 2u32 != 0 <==> (flags / 2) % 2 == 1) by (bit_vector);
    assert(bit < 32 ==> ((flags | 1u32) >> bit) & 1u32 == if bit == 0 {
        1u32
    } else {
        (flags >> bit) & 1u32
    }) by (bit_vector);
    assert(bit < 32 ==> ((flags & !1u32) >> bit) & 1u32 == if bit == 0 {
        0u32
    } else {
        (flags >> bit) & 1u32
    }) by (bit_vector);
    assert(bit < 32 ==> ((flags | 2u32) >> bit) & 1u32 == if bit == 1 {
        1u32
    } else {
        (flags >> bit) & 1u32
    }) by (bit_vector);
}

} // verus!
