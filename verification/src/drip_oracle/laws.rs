//! What holds of the price oracle as a whole.
use vstd::prelude::*;

use crate::address::Address;
use crate::drip_oracle::errors::Error;
use crate::drip_oracle::model::{
    buffer_valid, in_order, nothing_recorded, rolled, without, FeedView, OracleView,
};
use crate::drip_oracle::storage::{AssetConfig, DataKey, Observation};
use crate::drip_oracle::twap::{
    average, first_in_window, lemma_first_in_window, overflows_at, overflows_before,
    runs_backwards, segment, truncated_div, weighted_sum, window_start, BUFFER_MAX,
};

verus! {

// ─── Every state ─────────────────────────────────────────────────────

/// The first state is valid.
pub proof fn fresh_oracle_is_valid()
    ensures
        nothing_recorded().valid(),
{
    assert(nothing_recorded().feeds.dom() =~= Set::<Address>::full());
}

/// Replacing a feed by a valid one keeps a state valid.
proof fn lemma_with_feed_valid(s: OracleView, asset: Address, feed: FeedView)
    requires
        s.valid(),
        feed.valid(),
    ensures
        s.with_feed(asset, feed).valid(),
{
    let t = s.with_feed(asset, feed);
    assert(t.feeds.dom() =~= Set::<Address>::full());
    assert forall|a: Address| (#[trigger] t.feed(a)).valid() by {
        if a != asset {
            assert(t.feed(a) == s.feed(a));
        }
    }
}

/// `init` leads from valid states to valid states.
pub proof fn init_keeps_validity(s: OracleView, admin: Address)
    requires
        s.valid(),
    ensures
        s.after_init(admin).valid(),
{
    assert forall|a: Address| (#[trigger] s.after_init(admin).feed(a)).valid() by {
        assert(s.after_init(admin).feed(a) == s.feed(a));
    }
}

/// `configure_asset` leads from valid states to valid states.
pub proof fn configure_asset_keeps_validity(
    s: OracleView,
    caller: Address,
    asset: Address,
    config: AssetConfig,
)
    requires
        s.valid(),
    ensures
        s.after_configure_asset(caller, asset, config).valid(),
{
    assert(s.feed(asset).valid());
    if s.configure_asset_result(caller, config) is Ok {
        let configured = FeedView { config: Some(config), ..s.feed(asset) };
        lemma_with_feed_valid(s, asset, configured);
        lemma_touching_valid(s.with_feed(asset, configured), DataKey::AssetConfig(asset));
    }
}

/// `add_oracle` leads from valid states to valid states: no whitelist ever holds
/// an oracle twice.
pub proof fn add_oracle_keeps_validity(
    s: OracleView,
    caller: Address,
    asset: Address,
    oracle: Address,
)
    requires
        s.valid(),
    ensures
        s.after_add_oracle(caller, asset, oracle).valid(),
{
    let feed = s.feed(asset);
    assert(feed.valid());
    if s.add_oracle_result(caller, asset) is Ok && !feed.oracles.contains(oracle) {
        let added = FeedView { oracles: feed.oracles.push(oracle), ..feed };
        lemma_with_feed_valid(s, asset, added);
        lemma_touching_valid(s.with_feed(asset, added), DataKey::Oracles(asset));
    }
}

proof fn lemma_touching_valid(s: OracleView, key: DataKey)
    requires
        s.valid(),
    ensures
        s.touching(key).valid(),
{
    assert forall|a: Address| (#[trigger] s.touching(key).feed(a)).valid() by {
        assert(s.touching(key).feed(a) == s.feed(a));
    }
}

/// What `without` leaves: the others, as often and in the order they were.
pub(crate) proof fn lemma_without(list: Seq<Address>, oracle: Address)
    ensures
        !without(list, oracle).contains(oracle),
        forall|a: Address|
            a != oracle ==> (#[trigger] without(list, oracle).contains(a) <==> list.contains(a)),
        list.no_duplicates() ==> without(list, oracle).no_duplicates(),
        without(list, oracle).len() <= list.len(),
        !list.contains(oracle) ==> without(list, oracle) == list,
    decreases list.len(),
{
    reveal(Seq::filter);
    if list.len() > 0 {
        let rest = list.drop_last();
        let x = list.last();
        let w = without(rest, oracle);
        lemma_without(rest, oracle);
        assert(list =~= rest.push(x));
        assert(without(list, oracle) == if x != oracle {
            w.push(x)
        } else {
            w
        });
        assert forall|a: Address|
            #![trigger list.contains(a)]
            list.contains(a) <==> rest.contains(a) || a == x by {
            if rest.contains(a) {
                let i = choose|i: int| 0 <= i < rest.len() && rest[i] == a;
                assert(list[i] == a);
            }
            assert(list[list.len() - 1] == x);
        }
        assert forall|a: Address|
            #![trigger w.push(x).contains(a)]
            w.push(x).contains(a) <==> w.contains(a) || a == x by {
            if w.contains(a) {
                let i = choose|i: int| 0 <= i < w.len() && w[i] == a;
                assert(w.push(x)[i] == a);
            }
            assert(w.push(x)[w.len() as int] == x);
        }
        assert forall|a: Address| a != oracle implies (#[trigger] without(list, oracle).contains(a)
            <==> list.contains(a)) by {
            assert(w.contains(a) <==> rest.contains(a));
        }
        if list.no_duplicates() {
            assert(rest.no_duplicates());
            assert(!rest.contains(x));
            if x != oracle {
                assert(!w.contains(x));
                assert(w.push(x).no_duplicates());
            }
        }
    }
}

/// `remove_oracle` leads from valid states to valid states.
pub proof fn remove_oracle_keeps_validity(
    s: OracleView,
    caller: Address,
    asset: Address,
    oracle: Address,
)
    requires
        s.valid(),
    ensures
        s.after_remove_oracle(caller, asset, oracle).valid(),
{
    let feed = s.feed(asset);
    assert(feed.valid());
    lemma_without(feed.oracles, oracle);
    if s.remove_oracle_result(caller) is Ok && feed.oracles.contains(oracle) {
        let removed = FeedView { oracles: without(feed.oracles, oracle), ..feed };
        lemma_with_feed_valid(s, asset, removed);
        lemma_touching_valid(s.with_feed(asset, removed), DataKey::Oracles(asset));
    }
}

/// A positive price with a later timestamp keeps a buffer valid.
proof fn lemma_rolled_valid(buffer: Seq<Observation>, newest: Observation)
    requires
        buffer_valid(buffer),
        newest.price > 0,
        buffer.len() > 0 ==> buffer.last().timestamp < newest.timestamp,
    ensures
        buffer_valid(rolled(buffer, newest)),
{
    let pushed = buffer.push(newest);
    assert forall|i: int, j: int| 0 <= i < j < pushed.len() implies (#[trigger] pushed[i]).timestamp
        < (#[trigger] pushed[j]).timestamp by {
        if j == buffer.len() && i < buffer.len() - 1 {
            assert(buffer[i].timestamp < buffer.last().timestamp);
        }
    }
    assert(in_order(pushed));
}

/// `submit_observation` leads from valid states to valid states: every buffer
/// stays within `BUFFER_MAX`, its timestamps increase, and its prices are
/// positive.
pub proof fn submit_observation_keeps_validity(
    s: OracleView,
    now: u64,
    asset: Address,
    observation: Observation,
)
    requires
        s.valid(),
    ensures
        s.after_submit_observation(now, asset, observation).valid(),
{
    let feed = s.feed(asset);
    assert(feed.valid());
    if s.submit_observation_result(now, asset, observation) is Ok {
        let grown = FeedView { observations: rolled(feed.observations, observation), ..feed };
        lemma_rolled_valid(feed.observations, observation);
        lemma_with_feed_valid(s, asset, grown);
        lemma_touching_valid(s.with_feed(asset, grown), DataKey::Observations(asset));
        lemma_touching_valid(
            s.with_feed(asset, grown).touching(DataKey::Observations(asset)),
            DataKey::Oracles(asset),
        );
    }
}

// ─── Every call ──────────────────────────────────────────────────────

/// A call that answers with an error leaves everything as it was.
pub proof fn refused_calls_change_nothing(
    s: OracleView,
    caller: Address,
    asset: Address,
    oracle: Address,
    config: AssetConfig,
    now: u64,
    observation: Observation,
)
    ensures
        s.init_result() is Err ==> s.after_init(caller) == s,
        s.configure_asset_result(caller, config) is Err ==> s.after_configure_asset(
            caller,
            asset,
            config,
        ) == s,
        s.add_oracle_result(caller, asset) is Err ==> s.after_add_oracle(caller, asset, oracle)
            == s,
        s.remove_oracle_result(caller) is Err ==> s.after_remove_oracle(caller, asset, oracle)
            == s,
        s.submit_observation_result(now, asset, observation) is Err
            ==> s.after_submit_observation(now, asset, observation) == s,
{
}

/// Once there is an admin, `init` is refused and no call changes the admin.
pub proof fn admin_is_set_once(
    s: OracleView,
    caller: Address,
    asset: Address,
    oracle: Address,
    config: AssetConfig,
    now: u64,
    observation: Observation,
)
    ensures
        s.init_result() is Ok ==> s.after_init(caller).admin == Some(caller),
        s.after_init(caller).init_result() == Err::<(), Error>(Error::AlreadyInitialized),
        s.admin is Some ==> s.after_init(caller).admin == s.admin,
        s.after_configure_asset(caller, asset, config).admin == s.admin,
        s.after_add_oracle(caller, asset, oracle).admin == s.admin,
        s.after_remove_oracle(caller, asset, oracle).admin == s.admin,
        s.after_submit_observation(now, asset, observation).admin == s.admin,
{
}

/// Only the admin changes configurations and whitelists, and only a whitelisted
/// oracle adds an observation.
pub proof fn changes_are_authorized(
    s: OracleView,
    caller: Address,
    asset: Address,
    oracle: Address,
    config: AssetConfig,
    now: u64,
    observation: Observation,
)
    ensures
        s.after_configure_asset(caller, asset, config) != s ==> s.admin == Some(caller),
        s.after_add_oracle(caller, asset, oracle) != s ==> s.admin == Some(caller),
        s.after_remove_oracle(caller, asset, oracle) != s ==> s.admin == Some(caller),
        s.after_submit_observation(now, asset, observation) != s ==> s.feed(
            asset,
        ).oracles.contains(observation.oracle),
{
}

/// A call about one asset leaves what is recorded for every other asset.
pub proof fn calls_concern_one_asset(
    s: OracleView,
    caller: Address,
    asset: Address,
    other: Address,
    oracle: Address,
    config: AssetConfig,
    now: u64,
    observation: Observation,
)
    requires
        other != asset,
    ensures
        s.after_init(caller).feed(other) == s.feed(other),
        s.after_configure_asset(caller, asset, config).feed(other) == s.feed(other),
        s.after_add_oracle(caller, asset, oracle).feed(other) == s.feed(other),
        s.after_remove_oracle(caller, asset, oracle).feed(other) == s.feed(other),
        s.after_submit_observation(now, asset, observation).feed(other) == s.feed(other),
{
}

/// Whatever entry a call writes, it also extends; an accepted observation extends
/// the whitelist too.
pub proof fn written_entries_are_extended(
    s: OracleView,
    caller: Address,
    asset: Address,
    oracle: Address,
    config: AssetConfig,
    now: u64,
    observation: Observation,
)
    ensures
        s.configure_asset_result(caller, config) is Ok ==> s.after_configure_asset(
            caller,
            asset,
            config,
        ).touched == s.touched.push(DataKey::AssetConfig(asset)),
        s.after_add_oracle(caller, asset, oracle).feeds != s.feeds ==> s.after_add_oracle(
            caller,
            asset,
            oracle,
        ).touched == s.touched.push(DataKey::Oracles(asset)),
        s.after_remove_oracle(caller, asset, oracle).feeds != s.feeds ==> s.after_remove_oracle(
            caller,
            asset,
            oracle,
        ).touched == s.touched.push(DataKey::Oracles(asset)),
        s.submit_observation_result(now, asset, observation) is Ok ==> s.after_submit_observation(
            now,
            asset,
            observation,
        ).touched == s.touched.push(DataKey::Observations(asset)).push(DataKey::Oracles(asset)),
{
}

// ─── Configurations and whitelists ───────────────────────────────────

/// Reconfiguring an asset keeps its whitelist and its observations, so that one
/// buffer serves any window.
pub proof fn configure_asset_keeps_the_lists(
    s: OracleView,
    caller: Address,
    asset: Address,
    config: AssetConfig,
)
    ensures
        ({
            let t = s.after_configure_asset(caller, asset, config);
            &&& t.feed(asset).oracles == s.feed(asset).oracles
            &&& t.feed(asset).observations == s.feed(asset).observations
            &&& s.configure_asset_result(caller, config) is Ok ==> t.feed(asset).config == Some(
                config,
            )
        }),
{
}

/// After an accepted `add_oracle` the oracle is listed, the others are listed as
/// before and in their order, and adding it again changes nothing.
pub proof fn add_oracle_is_idempotent(
    s: OracleView,
    caller: Address,
    asset: Address,
    oracle: Address,
)
    requires
        s.add_oracle_result(caller, asset) is Ok,
    ensures
        ({
            let t = s.after_add_oracle(caller, asset, oracle);
            &&& t.feed(asset).oracles.contains(oracle)
            &&& s.feed(asset).oracles.is_prefix_of(t.feed(asset).oracles)
            &&& t.add_oracle_result(caller, asset) is Ok
            &&& t.after_add_oracle(caller, asset, oracle) == t
        }),
{
    let list = s.feed(asset).oracles;
    let t = s.after_add_oracle(caller, asset, oracle);
    if !list.contains(oracle) {
        assert(t.feed(asset).oracles == list.push(oracle));
        assert(list.push(oracle)[list.len() as int] == oracle);
    }
}

/// After an accepted `remove_oracle` the oracle is not listed, the others are
/// listed as before, and removing it again changes nothing.
pub proof fn remove_oracle_is_idempotent(
    s: OracleView,
    caller: Address,
    asset: Address,
    oracle: Address,
)
    requires
        s.remove_oracle_result(caller) is Ok,
    ensures
        ({
            let t = s.after_remove_oracle(caller, asset, oracle);
            &&& !t.feed(asset).oracles.contains(oracle)
            &&& forall|a: Address|
                a != oracle ==> (#[trigger] t.feed(asset).oracles.contains(a) <==> s.feed(
                    asset,
                ).oracles.contains(a))
            &&& t.remove_oracle_result(caller) is Ok
            &&& t.after_remove_oracle(caller, asset, oracle) == t
        }),
{
    lemma_without(s.feed(asset).oracles, oracle);
}

/// Adding an oracle that was not listed and removing it again gives back what
/// was recorded, of every asset.
pub proof fn remove_oracle_undoes_add_oracle(
    s: OracleView,
    caller: Address,
    asset: Address,
    oracle: Address,
)
    requires
        s.add_oracle_result(caller, asset) is Ok,
        !s.feed(asset).oracles.contains(oracle),
    ensures
        ({
            let t = s.after_add_oracle(caller, asset, oracle).after_remove_oracle(
                caller,
                asset,
                oracle,
            );
            &&& t.admin == s.admin
            &&& forall|a: Address| #[trigger] t.feed(a) == s.feed(a)
        }),
{
    let list = s.feed(asset).oracles;
    let added = s.after_add_oracle(caller, asset, oracle);
    let t = added.after_remove_oracle(caller, asset, oracle);
    reveal(Seq::filter);
    lemma_without(list, oracle);
    assert(list.push(oracle).drop_last() =~= list);
    assert(list.push(oracle)[list.len() as int] == oracle);
    assert(added.feed(asset).oracles == list.push(oracle));
    assert(added.feed(asset).oracles.contains(oracle));
    assert(t.feed(asset).oracles =~= list);
    assert(t.feed(asset) == s.feed(asset));
}

/// A removed oracle can submit no observation.
pub proof fn removed_oracle_is_refused(
    s: OracleView,
    caller: Address,
    asset: Address,
    now: u64,
    observation: Observation,
)
    requires
        s.remove_oracle_result(caller) is Ok,
    ensures
        s.after_remove_oracle(caller, asset, observation.oracle).submit_observation_result(
            now,
            asset,
            observation,
        ) is Err,
{
    lemma_without(s.feed(asset).oracles, observation.oracle);
}

// ─── Observations ────────────────────────────────────────────────────

/// A submission changes the buffer of its asset alone, and that only where it is
/// accepted: the admin, every configuration, every whitelist and every other
/// buffer stay as they were.
pub proof fn submission_changes_one_buffer(
    s: OracleView,
    now: u64,
    asset: Address,
    observation: Observation,
)
    ensures
        ({
            let t = s.after_submit_observation(now, asset, observation);
            &&& s.submit_observation_result(now, asset, observation) is Err ==> t == s
            &&& t.admin == s.admin
            &&& forall|a: Address| (#[trigger] t.feed(a)).config == s.feed(a).config
            &&& forall|a: Address| (#[trigger] t.feed(a)).oracles == s.feed(a).oracles
            &&& forall|a: Address|
                a != asset ==> (#[trigger] t.feed(a)).observations == s.feed(a).observations
        }),
{
}

/// Where every buffer is within its bound, oldest first and of positive prices,
/// every buffer still is after a submission, whatever was submitted and whether
/// it was accepted or not.
pub proof fn submission_keeps_every_buffer_valid(
    s: OracleView,
    now: u64,
    asset: Address,
    observation: Observation,
)
    requires
        forall|a: Address| buffer_valid((#[trigger] s.feed(a)).observations),
    ensures
        forall|a: Address|
            buffer_valid(
                (#[trigger] s.after_submit_observation(now, asset, observation).feed(
                    a,
                )).observations,
            ),
{
    let t = s.after_submit_observation(now, asset, observation);
    assert forall|a: Address| buffer_valid((#[trigger] t.feed(a)).observations) by {
        assert(buffer_valid(s.feed(a).observations));
        if a == asset && s.submit_observation_result(now, asset, observation) is Ok {
            lemma_rolled_valid(s.feed(asset).observations, observation);
        }
    }
}

/// An accepted observation becomes the newest, those before it keep their order,
/// and only at `BUFFER_MAX` does one of them go, the oldest.
pub proof fn accepted_observation_is_newest(
    s: OracleView,
    now: u64,
    asset: Address,
    observation: Observation,
)
    requires
        s.valid(),
        s.submit_observation_result(now, asset, observation) is Ok,
    ensures
        ({
            let before = s.feed(asset).observations;
            let after = s.after_submit_observation(now, asset, observation).feed(
                asset,
            ).observations;
            &&& after.len() == if before.len() < BUFFER_MAX {
                before.len() + 1
            } else {
                BUFFER_MAX as nat
            }
            &&& after.last() == observation
            &&& after.drop_last() == if before.len() < BUFFER_MAX {
                before
            } else {
                before.drop_first()
            }
        }),
{
    assert(s.feed(asset).valid());
    let before = s.feed(asset).observations;
    let after = s.after_submit_observation(now, asset, observation).feed(asset).observations;
    assert(after == rolled(before, observation));
    assert(before.push(observation).drop_last() =~= before);
    if before.len() > 0 {
        assert(before.push(observation).drop_first().drop_last() =~= before.drop_first());
    }
}

/// The same timestamp is never accepted twice, nor an earlier one after it.
pub proof fn timestamps_only_advance(
    s: OracleView,
    now: u64,
    asset: Address,
    observation: Observation,
    later: u64,
    next: Observation,
)
    requires
        s.submit_observation_result(now, asset, observation) is Ok,
        next.timestamp <= observation.timestamp,
    ensures
        s.after_submit_observation(now, asset, observation).submit_observation_result(
            later,
            asset,
            next,
        ) is Err,
{
    let after = s.after_submit_observation(now, asset, observation).feed(asset).observations;
    assert(after == rolled(s.feed(asset).observations, observation));
    assert(after.last() == observation);
}

// ─── The average ─────────────────────────────────────────────────────

/// Where the next price starts to count after position `to - 1`: at the next
/// observation, and at `now` after the newest.
spec fn counted_until(observations: Seq<Observation>, now: u64, to: int) -> int {
    if to < observations.len() {
        observations[to].timestamp as int
    } else {
        now as int
    }
}

/// Weights that are not negative keep a weighted sum between the weighted
/// bounds of its prices.
proof fn lemma_weighted_sum_bounds(
    observations: Seq<Observation>,
    now: u64,
    first: int,
    to: int,
    lo: int,
    hi: int,
)
    requires
        0 <= first < to <= observations.len(),
        forall|k: int| first <= k < to ==> #[trigger] segment(observations, now, k) >= 0,
        forall|k: int|
            first <= k < to ==> lo <= (#[trigger] observations[k]).price
                && observations[k].price <= hi,
    ensures
        ({
            let weight = counted_until(observations, now, to) - observations[first].timestamp;
            &&& weight >= 0
            &&& lo * weight <= weighted_sum(observations, now, first, to) <= hi * weight
        }),
    decreases to - first,
{
    let last = to - 1;
    let dt = segment(observations, now, last);
    let price = observations[last].price as int;
    assert(lo * dt <= price * dt <= hi * dt) by (nonlinear_arith)
        requires
            lo <= price <= hi,
            dt >= 0,
    ;
    if first == last {
        assert(weighted_sum(observations, now, first, last) == 0);
    } else {
        lemma_weighted_sum_bounds(observations, now, first, last, lo, hi);
        let head = counted_until(observations, now, last) - observations[first].timestamp;
        assert(lo * (head + dt) == lo * head + lo * dt) by (nonlinear_arith);
        assert(hi * (head + dt) == hi * head + hi * dt) by (nonlinear_arith);
    }
}

/// Where several observations are averaged, none of the durations is negative.
proof fn lemma_segments_not_negative(
    observations: Seq<Observation>,
    config: AssetConfig,
    now: u64,
)
    requires
        average(observations, config, now) is Ok,
        first_in_window(observations, window_start(now, config.window_size))
            < observations.len() - 1,
    ensures
        forall|k: int|
            first_in_window(observations, window_start(now, config.window_size)) <= k
                < observations.len() ==> #[trigger] segment(observations, now, k) >= 0,
{
    let first = first_in_window(observations, window_start(now, config.window_size));
    assert forall|k: int| first <= k < observations.len() implies #[trigger] segment(
        observations,
        now,
        k,
    ) >= 0 by {
        if segment(observations, now, k) < 0 {
            assert(runs_backwards(observations, now, first));
        }
    }
}

/// A quotient that drops its fraction stays between the bounds of the fraction.
proof fn lemma_truncated_div_bounds(sum: int, weight: int, lo: int, hi: int)
    requires
        weight > 0,
        lo * weight <= sum <= hi * weight,
    ensures
        lo <= truncated_div(sum, weight) <= hi,
{
    if sum >= 0 {
        let q = sum / weight;
        vstd::arithmetic::div_mod::lemma_fundamental_div_mod(sum, weight);
        assert(lo <= q <= hi) by (nonlinear_arith)
            requires
                weight > 0,
                lo * weight <= sum <= hi * weight,
                sum == weight * q + sum % weight,
                0 <= sum % weight < weight,
        ;
    } else {
        let q = (-sum) / weight;
        vstd::arithmetic::div_mod::lemma_fundamental_div_mod(-sum, weight);
        assert(lo <= -q <= hi) by (nonlinear_arith)
            requires
                weight > 0,
                lo * weight <= sum <= hi * weight,
                -sum == weight * q + (-sum) % weight,
                0 <= (-sum) % weight < weight,
        ;
    }
}

/// The average lies between the lowest and the highest price in the window.
pub proof fn average_lies_between_the_prices(
    observations: Seq<Observation>,
    config: AssetConfig,
    now: u64,
    lo: i128,
    hi: i128,
)
    requires
        average(observations, config, now) is Ok,
        forall|k: int|
            first_in_window(observations, window_start(now, config.window_size)) <= k
                < observations.len() ==> lo <= (#[trigger] observations[k]).price
                && observations[k].price <= hi,
    ensures
        lo <= average(observations, config, now)->Ok_0 <= hi,
{
    let n = observations.len() as int;
    let first = first_in_window(observations, window_start(now, config.window_size));
    lemma_first_in_window(observations, window_start(now, config.window_size));
    if first < n - 1 {
        lemma_segments_not_negative(observations, config, now);
        lemma_weighted_sum_bounds(observations, now, first, n, lo as int, hi as int);
        lemma_truncated_div_bounds(
            weighted_sum(observations, now, first, n),
            now - observations[first].timestamp,
            lo as int,
            hi as int,
        );
    }
}

/// Where every price in the window is the same, the average is that price.
pub proof fn average_of_a_constant_price(
    observations: Seq<Observation>,
    config: AssetConfig,
    now: u64,
    price: i128,
)
    requires
        average(observations, config, now) is Ok,
        forall|k: int|
            first_in_window(observations, window_start(now, config.window_size)) <= k
                < observations.len() ==> (#[trigger] observations[k]).price == price,
    ensures
        average(observations, config, now) == Ok::<i128, Error>(price),
{
    average_lies_between_the_prices(observations, config, now, price, price);
}

/// Once one observation lies in the window, all after it do too.
pub proof fn window_holds_all_later_observations(
    observations: Seq<Observation>,
    config: AssetConfig,
    now: u64,
    k: int,
)
    requires
        in_order(observations),
        0 <= k < observations.len(),
    ensures
        observations[k].timestamp >= window_start(now, config.window_size) <==> k
            >= first_in_window(observations, window_start(now, config.window_size)),
{
    let start = window_start(now, config.window_size);
    lemma_first_in_window(observations, start);
    let first = first_in_window(observations, start);
    if first < k {
        assert(observations[first].timestamp < observations[k].timestamp);
    }
}

/// With a window no longer than the staleness bound a price is never stale: an
/// observation that is too old has left the window first.
pub proof fn short_window_is_never_stale(
    observations: Seq<Observation>,
    config: AssetConfig,
    now: u64,
)
    requires
        in_order(observations),
        config.window_size <= config.max_staleness,
    ensures
        average(observations, config, now) != Err::<i128, Error>(Error::PriceStale),
{
    let start = window_start(now, config.window_size);
    lemma_first_in_window(observations, start);
    let first = first_in_window(observations, start);
    let n = observations.len() as int;
    if first < n - 1 {
        assert(observations[first].timestamp < observations[n - 1].timestamp);
    }
}

/// With a window longer than the staleness bound a price can be stale: there is
/// a time at which a lone observation is in the window and yet too old.
pub proof fn long_window_can_be_stale(observation: Observation, config: AssetConfig)
    requires
        config.window_size > config.max_staleness,
        observation.timestamp + config.max_staleness < u64::MAX,
    ensures
        average(
            seq![observation],
            config,
            (observation.timestamp + config.max_staleness + 1) as u64,
        ) == Err::<i128, Error>(Error::PriceStale),
{
    let now = (observation.timestamp + config.max_staleness + 1) as u64;
    lemma_first_in_window(seq![observation], window_start(now, config.window_size));
    assert(seq![observation][0].timestamp >= window_start(now, config.window_size));
}

/// Where the timestamps are in order, durations below zero come of a newest
/// observation ahead of the clock alone.
pub proof fn ordered_time_runs_backwards_only_ahead_of_the_clock(
    observations: Seq<Observation>,
    now: u64,
    first: int,
)
    requires
        in_order(observations),
        0 <= first < observations.len(),
    ensures
        runs_backwards(observations, now, first) <==> observations.last().timestamp > now,
{
    let n = observations.len() as int;
    if runs_backwards(observations, now, first) {
        let k = choose|k: int| first <= k < n && #[trigger] segment(observations, now, k) < 0;
        if k + 1 < n {
            assert(observations[k].timestamp < observations[k + 1].timestamp);
        }
    }
    if observations.last().timestamp > now {
        assert(segment(observations, now, n - 1) < 0);
    }
}

/// Where several observations are in the window and the newest is ahead of the
/// clock, as a submission within the tolerance may be, the read is answered with
/// an overflow until the clock has caught up.
pub proof fn newest_ahead_of_the_clock_is_an_overflow(
    observations: Seq<Observation>,
    config: AssetConfig,
    now: u64,
)
    requires
        first_in_window(observations, window_start(now, config.window_size)) + 1
            < observations.len(),
        observations.last().timestamp > now,
    ensures
        average(observations, config, now) == Err::<i128, Error>(Error::ArithmeticOverflow),
{
    assert(segment(observations, now, observations.len() - 1) < 0);
}

/// What a valid feed answers: an average between its prices, and so a positive
/// one, unless its window is empty, its newest observation too old or ahead of
/// the clock, or the sum too large.
pub proof fn valid_feed_answers(s: OracleView, now: u64, asset: Address)
    requires
        s.valid(),
        s.feed(asset).config is Some,
    ensures
        ({
            let observations = s.feed(asset).observations;
            let config = s.feed(asset).config->0;
            let start = window_start(now, config.window_size);
            match s.twap(now, asset) {
                Ok((price, decimals)) => price > 0 && decimals == config.decimals,
                Err(Error::InsufficientSamples) => observations.len() == 0
                    || observations.last().timestamp < start,
                Err(Error::PriceStale) => observations.len() > 0 && now
                    - observations.last().timestamp > config.max_staleness,
                Err(Error::ArithmeticOverflow) => observations.len() > 1 && (
                observations.last().timestamp > now || weighted_sum(
                    observations,
                    now,
                    first_in_window(observations, start),
                    observations.len() as int,
                ) > i128::MAX),
                Err(_) => false,
            }
        }),
{
    assert(s.feed(asset).valid());
    let observations = s.feed(asset).observations;
    let config = s.feed(asset).config->0;
    let n = observations.len() as int;
    let start = window_start(now, config.window_size);
    let first = first_in_window(observations, start);
    lemma_first_in_window(observations, start);
    if average(observations, config, now) is Ok {
        average_lies_between_the_prices(observations, config, now, 1, i128::MAX);
    } else if first < n - 1 && observations.last().timestamp <= now {
        ordered_time_runs_backwards_only_ahead_of_the_clock(observations, now, first);
        assert(observations[first].timestamp < observations[n - 1].timestamp);
        if overflows_before(observations, now, first, n) {
            let j = choose|j: int|
                first <= j < n && #[trigger] overflows_at(observations, now, first, j);
            lemma_weighted_sum_increases(observations, now, first, j + 1, n);
            lemma_weighted_sum_increases(observations, now, first, first, j);
            assert(observations[j].price * segment(observations, now, j) >= 0)
                by (nonlinear_arith)
                requires
                    observations[j].price > 0,
                    segment(observations, now, j) >= 0,
            ;
        }
    }
}

/// Over positive prices and durations that are not negative a weighted sum
/// grows from term to term.
proof fn lemma_weighted_sum_increases(
    observations: Seq<Observation>,
    now: u64,
    first: int,
    m: int,
    n: int,
)
    requires
        0 <= first <= m <= n <= observations.len(),
        forall|k: int| first <= k < n ==> #[trigger] segment(observations, now, k) >= 0,
        forall|k: int| first <= k < n ==> (#[trigger] observations[k]).price > 0,
    ensures
        weighted_sum(observations, now, first, m) <= weighted_sum(observations, now, first, n),
    decreases n - m,
{
    if m < n {
        lemma_weighted_sum_increases(observations, now, first, m, n - 1);
        let price = observations[n - 1].price as int;
        let dt = segment(observations, now, n - 1);
        assert(price * dt >= 0) by (nonlinear_arith)
            requires
                price > 0,
                dt >= 0,
        ;
    }
}

/// A first submission is read back as it was written, as long as it stays in
/// the window and fresh.
pub proof fn first_submission_is_read_back(
    s: OracleView,
    now: u64,
    asset: Address,
    observation: Observation,
    later: u64,
)
    requires
        s.submit_observation_result(now, asset, observation) is Ok,
        s.feed(asset).observations.len() == 0,
        observation.timestamp >= window_start(later, (s.feed(asset).config->0).window_size),
        later - observation.timestamp <= (s.feed(asset).config->0).max_staleness,
    ensures
        ({
            let t = s.after_submit_observation(now, asset, observation);
            t.twap(later, asset) == Ok::<(i128, u32), Error>(
                (observation.price, (s.feed(asset).config->0).decimals),
            )
        }),
{
    let t = s.after_submit_observation(now, asset, observation);
    let config = s.feed(asset).config->0;
    let observations = t.feed(asset).observations;
    assert(observations =~= seq![observation]);
    lemma_first_in_window(observations, window_start(later, config.window_size));
    assert(observations[0] == observation);
}

} // verus!
