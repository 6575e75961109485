//! The time-weighted average price, and the bounds that the oracle lives by.
//!
//! Every accepted observation is appended to its asset's buffer, and the oldest
//! is dropped once the buffer holds more than `BUFFER_MAX`. The averaging is
//! done when the price is read, so one buffer serves any window.
use vstd::prelude::*;

use crate::drip_oracle::buffer::ObservationBuffer;
use crate::drip_oracle::errors::Error;
use crate::drip_oracle::storage::{AssetConfig, DataKey, Observation};
use crate::invocation::Invocation;

verus! {

/// The greatest number of observations kept per asset.
pub const BUFFER_MAX: u32 = 32;

/// The remaining lifetime, in ledgers, below which a touched entry is extended.
pub const TTL_THRESHOLD: u32 = 100_000;

/// The lifetime, in ledgers, to which such an entry is extended.
pub const TTL_EXTEND_TO: u32 = 200_000;

/// The greatest `decimals` of an asset: `10^38` still fits in a `u128`.
pub const MAX_DECIMALS: u32 = 38;

/// How far, in seconds, a submitted timestamp may lie ahead of the ledger
/// clock.
pub const CLOCK_DRIFT_TOLERANCE: u64 = 30;

/// Notes that the lifetime of the persistent entry `key` is to be extended.
pub fn bump_persistent(touched: &mut Vec<DataKey>, key: DataKey)
    ensures
        final(touched)@ == old(touched)@.push(key),
{
    touched.push(key);
}

// ─── What the average is ─────────────────────────────────────────────

/// The earliest timestamp inside a window that ends at `now`.
pub open spec fn window_start(now: u64, window_size: u64) -> int {
    if now >= window_size {
        now - window_size
    } else {
        0
    }
}

/// The position of the first observation at or after `start`, or the number of
/// observations where there is none.
pub open spec fn first_in_window(observations: Seq<Observation>, start: int) -> int
    decreases observations.len(),
{
    if observations.len() == 0 {
        0
    } else if observations[0].timestamp >= start {
        0
    } else {
        1 + first_in_window(observations.drop_first(), start)
    }
}

/// For how long the price at position `j` stood: until the next observation,
/// and for the newest one until `now`.
pub open spec fn segment(observations: Seq<Observation>, now: u64, j: int) -> int {
    if j + 1 < observations.len() {
        observations[j + 1].timestamp - observations[j].timestamp
    } else {
        now - observations[j].timestamp
    }
}

/// The sum of price times duration over the positions `from..to`.
pub open spec fn weighted_sum(observations: Seq<Observation>, now: u64, from: int, to: int) -> int
    decreases to - from,
{
    if to <= from {
        0
    } else {
        weighted_sum(observations, now, from, to - 1) + observations[to - 1].price * segment(
            observations,
            now,
            to - 1,
        )
    }
}

/// `x` is the value of some `i128`.
pub open spec fn fits_i128(x: int) -> bool {
    i128::MIN <= x <= i128::MAX
}

/// Adding the term at position `j` leaves the range of `i128`: the term itself
/// does, or the sum from `first` through `j` does.
pub open spec fn overflows_at(
    observations: Seq<Observation>,
    now: u64,
    first: int,
    j: int,
) -> bool {
    ||| !fits_i128(observations[j].price * segment(observations, now, j))
    ||| !fits_i128(weighted_sum(observations, now, first, j + 1))
}

/// The weighted sum from `first` on leaves the range of `i128` at some term
/// before position `to`.
pub open spec fn overflows_before(
    observations: Seq<Observation>,
    now: u64,
    first: int,
    to: int,
) -> bool {
    exists|j: int| first <= j < to && #[trigger] overflows_at(observations, now, first, j)
}

/// Time runs backwards somewhere from position `first` on: an observation lies
/// after its successor, or the newest one after `now`.
pub open spec fn runs_backwards(observations: Seq<Observation>, now: u64, first: int) -> bool {
    exists|k: int| first <= k < observations.len() && #[trigger] segment(observations, now, k) < 0
}

/// Division that drops the fraction, whatever the sign of `a`.
pub open spec fn truncated_div(a: int, b: int) -> int {
    if a >= 0 {
        a / b
    } else {
        -((-a) / b)
    }
}

/// The time-weighted average price of `observations`, read at `now`.
///
/// Where several observations are averaged, neither a duration below zero nor a
/// term or a sum beyond `i128` can be represented, and no time is nothing to
/// divide by: all of these are an overflow.
pub open spec fn average(
    observations: Seq<Observation>,
    config: AssetConfig,
    now: u64,
) -> Result<i128, Error> {
    let n = observations.len() as int;
    let first = first_in_window(observations, window_start(now, config.window_size));
    if first == n {
        Err(Error::InsufficientSamples)
    } else if now - observations.last().timestamp > config.max_staleness {
        Err(Error::PriceStale)
    } else if first == n - 1 {
        Ok(observations[first].price)
    } else if runs_backwards(observations, now, first) {
        Err(Error::ArithmeticOverflow)
    } else if overflows_before(observations, now, first, n) {
        Err(Error::ArithmeticOverflow)
    } else if now == observations[first].timestamp {
        Err(Error::ArithmeticOverflow)
    } else {
        Ok(
            truncated_div(
                weighted_sum(observations, now, first, n),
                now - observations[first].timestamp,
            ) as i128,
        )
    }
}

/// All observations before the first one in the window lie before `start`, and
/// that one does not.
pub proof fn lemma_first_in_window(observations: Seq<Observation>, start: int)
    ensures
        0 <= first_in_window(observations, start) <= observations.len(),
        forall|j: int|
            0 <= j < first_in_window(observations, start) ==> observations[j].timestamp < start,
        first_in_window(observations, start) < observations.len()
            ==> observations[first_in_window(observations, start)].timestamp >= start,
    decreases observations.len(),
{
    if observations.len() > 0 && observations[0].timestamp < start {
        let rest = observations.drop_first();
        lemma_first_in_window(rest, start);
        assert forall|j: int|
            0 <= j < first_in_window(observations, start) implies observations[j].timestamp
            < start by {
            if j > 0 {
                assert(observations[j] == rest[j - 1]);
            }
        }
    }
}

/// What `lemma_first_in_window` says determines the position.
pub(crate) proof fn lemma_first_in_window_unique(observations: Seq<Observation>, start: int, first: int)
    requires
        0 <= first <= observations.len(),
        forall|j: int| 0 <= j < first ==> observations[j].timestamp < start,
        first < observations.len() ==> observations[first].timestamp >= start,
    ensures
        first == first_in_window(observations, start),
{
    lemma_first_in_window(observations, start);
    let found = first_in_window(observations, start);
    if found < first {
        assert(observations[found].timestamp < start);
    } else if first < found {
        assert(observations[first].timestamp < start);
    }
}

/// Time-weighted average price over the configured window, refused where the
/// newest observation is older than `max_staleness`.
///
/// A single observation in the window is returned as it is. Otherwise each
/// price counts for as long as it stood, the newest until now. Where such a
/// duration would be negative, or the sum leaves the range of `i128`, the answer
/// is `ArithmeticOverflow`.
pub fn compute(
    call: &Invocation,
    observations: &ObservationBuffer,
    config: &AssetConfig,
) -> (price: Result<i128, Error>)
    requires
        observations.wf(),
    ensures
        price == average(observations@, *config, call.timestamp),
{
    let now: u64 = call.timestamp;
    let len: u32 = observations.len();
    let opens_at: u64 = now.saturating_sub(config.window_size);
    let ghost seq = observations@;

    // The timestamps increase, so the window holds every observation from the
    // first one in it.
    let mut first: u32 = 0;
    while first < len && observations.get_unchecked_ts(first) < opens_at
        invariant
            observations.wf(),
            len == observations@.len(),
            first <= len,
            forall|j: int| 0 <= j < first ==> observations@[j].timestamp < opens_at,
        decreases len - first,
    {
        first += 1;
    }
    proof {
        lemma_first_in_window_unique(seq, opens_at as int, first as int);
    }
    if first == len {
        return Err(Error::InsufficientSamples);
    }
    let newest_ts: u64 = observations.get_unchecked_ts(len - 1);
    if now.saturating_sub(newest_ts) > config.max_staleness {
        return Err(Error::PriceStale);
    }
    if len - first == 1 {
        return Ok(observations.get_unchecked_price(first));
    }
    let first_ts: u64 = observations.get_unchecked_ts(first);
    let mut weighted: i128 = 0;
    let mut weight_total: i128 = 0;
    let mut j: u32 = first;
    while j < len
        invariant
            observations.wf(),
            seq == observations@,
            len == seq.len(),
            now == call.timestamp,
            first < len - 1,
            first <= j <= len,
            first_ts == seq[first as int].timestamp,
            first == first_in_window(seq, window_start(now, config.window_size)),
            now - seq.last().timestamp <= config.max_staleness,
            forall|k: int| first <= k < j ==> #[trigger] segment(seq, now, k) >= 0,
            !overflows_before(seq, now, first as int, j as int),
            weighted == weighted_sum(seq, now, first as int, j as int),
            j < len ==> weight_total == seq[j as int].timestamp - first_ts,
            j == len ==> weight_total == now - first_ts,
            weight_total >= 0,
        decreases len - j,
    {
        let price_j: i128 = observations.get_unchecked_price(j);
        let ts_j: u64 = observations.get_unchecked_ts(j);
        let ts_next: u64 = if j + 1 < len {
            observations.get_unchecked_ts(j + 1)
        } else {
            now
        };
        assert(segment(seq, now, j as int) == ts_next - ts_j);
        if ts_next < ts_j {
            return Err(Error::ArithmeticOverflow);
        }
        let dt: i128 = (ts_next - ts_j) as i128;
        let contribution: i128 = match price_j.checked_mul(dt) {
            Some(product) => product,
            None => {
                assert(overflows_at(seq, now, first as int, j as int));
                return Err(Error::ArithmeticOverflow);
            },
        };
        weighted = match weighted.checked_add(contribution) {
            Some(sum) => sum,
            None => {
                assert(overflows_at(seq, now, first as int, j as int));
                return Err(Error::ArithmeticOverflow);
            },
        };
        weight_total = match weight_total.checked_add(dt) {
            Some(sum) => sum,
            None => {
                return Err(Error::ArithmeticOverflow);
            },
        };
        j += 1;
    }
    match weighted.checked_div(weight_total) {
        Some(quotient) => Ok(quotient),
        None => Err(Error::ArithmeticOverflow),
    }
}

} // verus!
