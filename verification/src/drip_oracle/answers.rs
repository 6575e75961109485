//! When each call of the price oracle is accepted, what it then leaves behind,
//! and what a read answers, told by what is recorded and what is handed in.
//!
//! Every answer comes with the inputs that give it. The conditions of one call
//! exclude each other and leave no input out, so each answer is given on its own
//! inputs and on no others.
use vstd::arithmetic::power::pow;
use vstd::prelude::*;

use crate::address::Address;
use crate::drip_oracle::errors::Error;
use crate::drip_oracle::laws::lemma_without;
use crate::drip_oracle::model::{admin_check, nothing_recorded, without, FeedView, OracleView};
use crate::drip_oracle::storage::{AssetConfig, DataKey, Observation};
use crate::drip_oracle::twap::{
    average, first_in_window, lemma_first_in_window, lemma_first_in_window_unique, overflows_at,
    overflows_before, runs_backwards, segment, truncated_div, weighted_sum, window_start,
};
use crate::drip_oracle::{all_feeds, is_feed_of, lemma_feed_of, DripOracle};
use crate::host;

verus! {

// ─── Setup and configuration ─────────────────────────────────────────

/// A contract that was never called has no admin, and nothing is configured,
/// listed, observed or to be extended.
pub proof fn fresh_oracle_is_empty(asset: Address)
    ensures
        nothing_recorded().admin is None,
        nothing_recorded().touched.len() == 0,
        nothing_recorded().feeds[asset].config is None,
        nothing_recorded().feeds[asset].oracles.len() == 0,
        nothing_recorded().feeds[asset].observations.len() == 0,
{
}

/// The admin is admitted, everyone else is refused, and before there is an admin
/// no one is admitted.
pub proof fn admin_alone_is_admitted(admin: Option<Address>, caller: Address)
    ensures
        match admin_check(admin, caller) {
            Ok(_) => admin == Some(caller),
            Err(Error::NotInitialized) => admin is None,
            Err(Error::NotAuthorized) => admin is Some && admin != Some(caller),
            Err(_) => false,
        },
{
}

/// `init` is accepted exactly where there is no admin, and then records the
/// admin and nothing else.
pub proof fn init_is_accepted_without_an_admin(s: OracleView, admin: Address)
    ensures
        match s.init_result() {
            Ok(_) => s.admin is None,
            Err(Error::AlreadyInitialized) => s.admin is Some,
            Err(_) => false,
        },
        s.admin is None ==> s.after_init(admin) == (OracleView {
            admin: Some(admin),
            feeds: s.feeds,
            touched: s.touched,
        }),
        s.admin is Some ==> s.after_init(admin) == s,
{
}

/// The admin may give an asset any parameters with a window, a staleness bound,
/// and a precision `10^decimals` that fits in a `u128`. They are recorded as they
/// are, and nothing else changes but the lifetime that is extended.
pub proof fn admin_may_configure(
    s: OracleView,
    caller: Address,
    asset: Address,
    config: AssetConfig,
)
    ensures
        match s.configure_asset_result(caller, config) {
            Ok(_) => s.admin == Some(caller) && pow(10, config.decimals as nat) <= u128::MAX
                && config.window_size > 0 && config.max_staleness > 0,
            Err(Error::NotInitialized) => s.admin is None,
            Err(Error::NotAuthorized) => s.admin is Some && s.admin != Some(caller),
            Err(Error::InvalidConfig) => s.admin == Some(caller) && (pow(
                10,
                config.decimals as nat,
            ) > u128::MAX || config.window_size == 0 || config.max_staleness == 0),
            Err(_) => false,
        },
        s.configure_asset_result(caller, config) is Ok ==> s.after_configure_asset(
            caller,
            asset,
            config,
        ) == (OracleView {
            admin: s.admin,
            feeds: s.feeds.insert(
                asset,
                (FeedView {
                    config: Some(config),
                    oracles: s.feeds[asset].oracles,
                    observations: s.feeds[asset].observations,
                }),
            ),
            touched: s.touched.push(DataKey::AssetConfig(asset)),
        }),
        s.configure_asset_result(caller, config) is Err ==> s.after_configure_asset(
            caller,
            asset,
            config,
        ) == s,
{
    crate::oracle::allowed_decimals_have_a_precision(config.decimals);
}

// ─── Whitelists ──────────────────────────────────────────────────────

/// The admin may list any oracle for a configured asset. One that is not listed
/// goes to the end of the list; one that is changes nothing.
pub proof fn admin_may_add_any_oracle(
    s: OracleView,
    caller: Address,
    asset: Address,
    oracle: Address,
)
    ensures
        match s.add_oracle_result(caller, asset) {
            Ok(_) => s.admin == Some(caller) && s.feeds[asset].config is Some,
            Err(Error::NotInitialized) => s.admin is None,
            Err(Error::NotAuthorized) => s.admin is Some && s.admin != Some(caller),
            Err(Error::AssetNotConfigured) => s.admin == Some(caller)
                && s.feeds[asset].config is None,
            Err(_) => false,
        },
        s.after_add_oracle(caller, asset, oracle) == if s.admin == Some(caller)
            && s.feeds[asset].config is Some && (forall|i: int|
            0 <= i < s.feeds[asset].oracles.len() ==> s.feeds[asset].oracles[i] != oracle) {
            OracleView {
                admin: s.admin,
                feeds: s.feeds.insert(
                    asset,
                    (FeedView {
                        config: s.feeds[asset].config,
                        oracles: s.feeds[asset].oracles.push(oracle),
                        observations: s.feeds[asset].observations,
                    }),
                ),
                touched: s.touched.push(DataKey::Oracles(asset)),
            }
        } else {
            s
        },
{
}

/// The admin may take any oracle off any list, configured or not. The place at
/// which it stood is closed; nothing else changes but the lifetime that is
/// extended.
pub proof fn admin_may_remove_any_oracle(
    s: OracleView,
    caller: Address,
    asset: Address,
    oracle: Address,
    place: int,
)
    requires
        s.feeds[asset].oracles.no_duplicates(),
        0 <= place < s.feeds[asset].oracles.len() ==> s.feeds[asset].oracles[place] == oracle,
        !(0 <= place < s.feeds[asset].oracles.len()) ==> !s.feeds[asset].oracles.contains(oracle),
    ensures
        match s.remove_oracle_result(caller) {
            Ok(_) => s.admin == Some(caller),
            Err(Error::NotInitialized) => s.admin is None,
            Err(Error::NotAuthorized) => s.admin is Some && s.admin != Some(caller),
            Err(_) => false,
        },
        s.after_remove_oracle(caller, asset, oracle) == if s.admin == Some(caller) && 0 <= place
            < s.feeds[asset].oracles.len() {
            OracleView {
                admin: s.admin,
                feeds: s.feeds.insert(
                    asset,
                    (FeedView {
                        config: s.feeds[asset].config,
                        oracles: s.feeds[asset].oracles.remove(place),
                        observations: s.feeds[asset].observations,
                    }),
                ),
                touched: s.touched.push(DataKey::Oracles(asset)),
            }
        } else {
            s
        },
{
    let list = s.feeds[asset].oracles;
    if 0 <= place < list.len() {
        assert(list.contains(oracle));
        lemma_without_place(list, oracle, place);
    }
}

/// Without its one occurrence, a list is what stood before it and what stood
/// after it.
proof fn lemma_without_place(list: Seq<Address>, oracle: Address, place: int)
    requires
        list.no_duplicates(),
        0 <= place < list.len(),
        list[place] == oracle,
    ensures
        without(list, oracle) == list.remove(place),
    decreases list.len(),
{
    reveal(Seq::filter);
    let rest = list.drop_last();
    lemma_without(rest, oracle);
    if place == list.len() - 1 {
        assert(!rest.contains(oracle));
        assert(rest =~= list.remove(place));
    } else {
        lemma_without_place(rest, oracle, place);
        assert(list.last() != oracle);
        assert(rest.remove(place).push(list.last()) =~= list.remove(place));
    }
}

/// Removal treats the entries of a list one by one: an entry more at the end is
/// dropped where it is the oracle, and stays at the end where it is another. This
/// holds of every list, one that names an oracle twice too.
pub proof fn removal_goes_entry_by_entry(
    s: OracleView,
    t: OracleView,
    caller: Address,
    asset: Address,
    oracle: Address,
    entry: Address,
)
    requires
        s.admin == Some(caller),
        t.admin == Some(caller),
        t.feeds[asset].oracles == s.feeds[asset].oracles.push(entry),
    ensures
        t.after_remove_oracle(caller, asset, oracle).feeds[asset].oracles == if entry == oracle {
            s.after_remove_oracle(caller, asset, oracle).feeds[asset].oracles
        } else {
            s.after_remove_oracle(caller, asset, oracle).feeds[asset].oracles.push(entry)
        },
{
    reveal(Seq::filter);
    let list = s.feeds[asset].oracles;
    let longer = list.push(entry);
    lemma_without(list, oracle);
    lemma_without(longer, oracle);
    assert(longer.drop_last() =~= list);
    assert(longer.last() == entry);
    assert(list.contains(oracle) ==> longer.contains(oracle)) by {
        if list.contains(oracle) {
            let i = choose|i: int| 0 <= i < list.len() && list[i] == oracle;
            assert(longer[i] == oracle);
        }
    }
}

// ─── Submissions ─────────────────────────────────────────────────────

/// A submission is accepted exactly where its price is positive, its asset is
/// configured, its oracle listed, its time at most 30 seconds ahead of the clock
/// and later than the newest one recorded. Nothing else counts.
pub proof fn qualified_submissions_are_accepted(
    s: OracleView,
    now: u64,
    asset: Address,
    observation: Observation,
)
    ensures
        ({
            let buffer = s.feeds[asset].observations;
            let listed = exists|i: int|
                0 <= i < s.feeds[asset].oracles.len() && s.feeds[asset].oracles[i]
                    == observation.oracle;
            let timely = observation.timestamp <= now + 30 && (buffer.len() == 0 || buffer[buffer.len()
                - 1].timestamp < observation.timestamp);
            match s.submit_observation_result(now, asset, observation) {
                Ok(_) => observation.price > 0 && s.feeds[asset].config is Some && listed && timely,
                Err(Error::InvalidPrice) => observation.price <= 0,
                Err(Error::AssetNotConfigured) => observation.price > 0
                    && s.feeds[asset].config is None,
                Err(Error::OracleNotWhitelisted) => observation.price > 0
                    && s.feeds[asset].config is Some && !listed,
                Err(Error::TimestampInvalid) => observation.price > 0
                    && s.feeds[asset].config is Some && listed && !timely,
                Err(_) => false,
            }
        }),
{
}

/// What is accepted at one time is accepted at every later time, however old the
/// newest observation has become meanwhile.
pub proof fn silence_does_not_close_a_feed(
    s: OracleView,
    now: u64,
    later: u64,
    asset: Address,
    observation: Observation,
)
    requires
        s.submit_observation_result(now, asset, observation) is Ok,
        now <= later,
    ensures
        s.submit_observation_result(later, asset, observation) is Ok,
{
}

/// A feed takes the pushes of its oracles for ever: after any accepted one,
/// whatever positive price a listed oracle pushes with a later time, within the
/// tolerance of the clock, is accepted too.
pub proof fn accepted_push_leaves_the_feed_open(
    s: OracleView,
    now: u64,
    asset: Address,
    observation: Observation,
    later: u64,
    next: Observation,
)
    requires
        s.submit_observation_result(now, asset, observation) is Ok,
        s.feeds[asset].oracles.contains(next.oracle),
        next.price > 0,
        observation.timestamp < next.timestamp <= later + 30,
    ensures
        s.after_submit_observation(now, asset, observation).submit_observation_result(
            later,
            asset,
            next,
        ) is Ok,
{
    let after = s.after_submit_observation(now, asset, observation).feeds[asset].observations;
    assert(after.last() == observation);
}

/// An accepted submission goes to the end of its buffer as it is. From 32
/// observations on the oldest leaves. Nothing else changes but the lifetimes
/// that are extended, and a refused submission changes nothing.
pub proof fn accepted_submission_is_recorded(
    s: OracleView,
    now: u64,
    asset: Address,
    observation: Observation,
)
    ensures
        s.submit_observation_result(now, asset, observation) is Ok ==> s.after_submit_observation(
            now,
            asset,
            observation,
        ) == (OracleView {
            admin: s.admin,
            feeds: s.feeds.insert(
                asset,
                (FeedView {
                    config: s.feeds[asset].config,
                    oracles: s.feeds[asset].oracles,
                    observations: if s.feeds[asset].observations.len() < 32 {
                        s.feeds[asset].observations.push(observation)
                    } else {
                        s.feeds[asset].observations.drop_first().push(observation)
                    },
                }),
            ),
            touched: s.touched.push(DataKey::Observations(asset)).push(DataKey::Oracles(asset)),
        }),
        s.submit_observation_result(now, asset, observation) is Err ==> s.after_submit_observation(
            now,
            asset,
            observation,
        ) == s,
{
    let before = s.feeds[asset].observations;
    if before.len() > 0 {
        assert(before.push(observation).drop_first() =~= before.drop_first().push(observation));
    }
}

/// Only a submission that is otherwise in order gets as far as the clock.
pub proof fn clock_is_compared_last(
    s: OracleView,
    oracle: Address,
    asset: Address,
    price: i128,
)
    ensures
        s.submission_admitted(oracle, asset, price) <==> price > 0 && s.feeds[asset].config is Some
            && s.feeds[asset].oracles.contains(oracle),
{
}

// ─── Reads ───────────────────────────────────────────────────────────

/// A read answers for a configured asset, with its average and its decimals, and
/// for no other.
pub proof fn read_answers_for_configured_assets(s: OracleView, now: u64, asset: Address)
    ensures
        match s.twap(now, asset) {
            Ok((price, decimals)) => s.feeds[asset].config is Some && decimals == (
            s.feeds[asset].config->0).decimals && average(
                s.feeds[asset].observations,
                s.feeds[asset].config->0,
                now,
            ) == Ok::<i128, Error>(price),
            Err(error) => match s.feeds[asset].config {
                None => error == Error::AssetNotConfigured,
                Some(config) => average(s.feeds[asset].observations, config, now) == Err::<
                    i128,
                    Error,
                >(error),
            },
        },
{
}

/// A read lacks samples exactly where every observation is older than the
/// window.
pub proof fn read_lacks_samples_where_all_are_too_old(
    observations: Seq<Observation>,
    config: AssetConfig,
    now: u64,
)
    ensures
        average(observations, config, now) == Err::<i128, Error>(Error::InsufficientSamples)
            <==> forall|i: int|
            0 <= i < observations.len() ==> (#[trigger] observations[i]).timestamp
                + config.window_size < now,
{
    let start = window_start(now, config.window_size);
    lemma_first_in_window(observations, start);
    let first = first_in_window(observations, start);
    if first < observations.len() {
        assert(observations[first].timestamp + config.window_size >= now);
    } else {
        assert forall|i: int| 0 <= i < observations.len() implies (
        #[trigger] observations[i]).timestamp + config.window_size < now by {
            assert(observations[i].timestamp < start);
        }
    }
}

/// Where an observation is in the window, a read is stale exactly where the
/// newest observation is older than the staleness bound.
pub proof fn read_is_stale_where_the_newest_is_too_old(
    observations: Seq<Observation>,
    config: AssetConfig,
    now: u64,
    k: int,
)
    requires
        0 <= k < observations.len(),
        observations[k].timestamp + config.window_size >= now,
    ensures
        average(observations, config, now) == Err::<i128, Error>(Error::PriceStale)
            <==> observations[observations.len() - 1].timestamp + config.max_staleness < now,
{
    let start = window_start(now, config.window_size);
    lemma_first_in_window(observations, start);
    assert(observations[k].timestamp >= start);
}

/// Where the newest observation alone is in the window, and fresh, a read
/// answers with its price.
pub proof fn lone_sample_is_the_answer(
    observations: Seq<Observation>,
    config: AssetConfig,
    now: u64,
)
    requires
        observations.len() > 0,
        observations.last().timestamp + config.window_size >= now,
        observations.last().timestamp + config.max_staleness >= now,
        forall|j: int|
            0 <= j < observations.len() - 1 ==> (#[trigger] observations[j]).timestamp
                + config.window_size < now,
    ensures
        average(observations, config, now) == Ok::<i128, Error>(observations.last().price),
{
    lemma_plain_first(observations, config, now, observations.len() - 1);
}

proof fn lemma_plain_first(
    observations: Seq<Observation>,
    config: AssetConfig,
    now: u64,
    first: int,
)
    requires
        0 <= first < observations.len(),
        observations[first].timestamp + config.window_size >= now,
        forall|j: int|
            0 <= j < first ==> (#[trigger] observations[j]).timestamp + config.window_size < now,
    ensures
        first == first_in_window(observations, window_start(now, config.window_size)),
{
    let start = window_start(now, config.window_size);
    assert forall|j: int| 0 <= j < first implies observations[j].timestamp < start by {
        assert(observations[j].timestamp + config.window_size < now);
    }
    lemma_first_in_window_unique(observations, start, first);
}

/// `sums` is the running account of price times standing time from position
/// `first` on: each price stands until the next observation, the newest until
/// `now`.
pub open spec fn is_running_account(
    sums: Seq<int>,
    observations: Seq<Observation>,
    now: u64,
    first: int,
) -> bool {
    let n = observations.len() as int;
    &&& 0 <= first < n
    &&& sums.len() == n + 1
    &&& sums[first] == 0
    &&& forall|i: int, j: int|
        first <= i && j == i + 1 && j < n ==> #[trigger] sums[j] == #[trigger] sums[i]
            + observations[i].price * (observations[j].timestamp - observations[i].timestamp)
    &&& sums[n] == sums[n - 1] + observations[n - 1].price * (now - observations[n - 1].timestamp)
}

/// The account is that of the weighted sum.
proof fn lemma_account(
    sums: Seq<int>,
    observations: Seq<Observation>,
    now: u64,
    first: int,
    to: int,
)
    requires
        is_running_account(sums, observations, now, first),
        first <= to <= observations.len(),
    ensures
        sums[to] == weighted_sum(observations, now, first, to),
    decreases to - first,
{
    if first < to {
        lemma_account(sums, observations, now, first, to - 1);
        if to < observations.len() {
            let i = to - 1;
            assert(sums[to] == sums[i] + observations[i].price * (observations[to].timestamp
                - observations[i].timestamp));
        }
    }
}

/// Where at least two observations are in the window and the newest is fresh,
/// the answer is the account at `now` over the time since the first of them, the
/// fraction dropped. It is an overflow instead exactly where time runs backwards,
/// where none has passed, or where a sum or a term of the account is no `i128`.
pub proof fn average_is_the_weighted_mean(
    observations: Seq<Observation>,
    config: AssetConfig,
    now: u64,
    first: int,
    sums: Seq<int>,
)
    requires
        0 <= first,
        first + 1 < observations.len(),
        forall|j: int|
            0 <= j < first ==> (#[trigger] observations[j]).timestamp + config.window_size < now,
        observations[first].timestamp + config.window_size >= now,
        observations.last().timestamp + config.max_staleness >= now,
        is_running_account(sums, observations, now, first),
    ensures
        ({
            let n = observations.len() as int;
            let elapsed = now - observations[first].timestamp;
            match average(observations, config, now) {
                Ok(q) => {
                    &&& elapsed > 0
                    &&& observations[n - 1].timestamp <= now
                    &&& forall|i: int, j: int|
                        first <= i && j == i + 1 && j < n ==> (
                        #[trigger] observations[i]).timestamp <= (
                        #[trigger] observations[j]).timestamp
                    &&& forall|i: int|
                        first <= i <= n ==> i128::MIN <= #[trigger] sums[i] <= i128::MAX
                    &&& forall|i: int, j: int|
                        first <= i && j == i + 1 && j <= n ==> i128::MIN <= #[trigger] sums[j]
                            - #[trigger] sums[i] <= i128::MAX
                    &&& sums[n] >= 0 ==> q * elapsed <= sums[n] < (q + 1) * elapsed
                    &&& sums[n] < 0 ==> (q - 1) * elapsed < sums[n] <= q * elapsed
                },
                Err(error) => {
                    &&& error == Error::ArithmeticOverflow
                    &&& {
                        ||| elapsed == 0
                        ||| observations[n - 1].timestamp > now
                        ||| exists|i: int, j: int|
                            first <= i && j == i + 1 && j < n && (
                            #[trigger] observations[i]).timestamp > (
                            #[trigger] observations[j]).timestamp
                        ||| exists|i: int|
                            first <= i <= n && !(i128::MIN <= #[trigger] sums[i] <= i128::MAX)
                        ||| exists|i: int, j: int|
                            first <= i && j == i + 1 && j <= n && !(i128::MIN <= #[trigger] sums[j]
                                - #[trigger] sums[i] <= i128::MAX)
                    }
                },
            }
        }),
{
    let n = observations.len() as int;
    let elapsed = now - observations[first].timestamp;
    lemma_plain_first(observations, config, now, first);
    assert forall|m: int| first <= m <= n implies #[trigger] sums[m] == weighted_sum(
        observations,
        now,
        first,
        m,
    ) by {
        lemma_account(sums, observations, now, first, m);
    }
    assert forall|j: int| first <= j < n implies sums[j + 1] - sums[j] == observations[j].price
        * #[trigger] segment(observations, now, j) by {
        assert(sums[j + 1] == weighted_sum(observations, now, first, j + 1));
        assert(sums[j] == weighted_sum(observations, now, first, j));
    }
    match average(observations, config, now) {
        Ok(q) => {
            assert forall|k: int| first <= k < n implies #[trigger] segment(observations, now, k)
                >= 0 by {
                assert(!(segment(observations, now, k) < 0) || runs_backwards(
                    observations,
                    now,
                    first,
                ));
            }
            assert forall|j: int| first <= j < n implies !(#[trigger] overflows_at(
                observations,
                now,
                first,
                j,
            )) by {}
            assert forall|i: int, j: int| first <= i && j == i + 1 && j < n implies (
            #[trigger] observations[i]).timestamp <= (#[trigger] observations[j]).timestamp by {
                assert(segment(observations, now, i) >= 0);
            }
            assert(segment(observations, now, n - 1) >= 0);
            assert forall|i: int| first <= i <= n implies i128::MIN <= #[trigger] sums[i]
                <= i128::MAX by {
                if i > first {
                    assert(!overflows_at(observations, now, first, i - 1));
                }
            }
            assert forall|i: int, j: int| first <= i && j == i + 1 && j <= n implies i128::MIN
                <= #[trigger] sums[j] - #[trigger] sums[i] <= i128::MAX by {
                assert(!overflows_at(observations, now, first, i));
                assert(sums[j] - sums[i] == observations[i].price * segment(observations, now, i));
            }
            lemma_elapsed_not_negative(observations, now, first, first);
            lemma_truncated_div(sums[n], elapsed);
        },
        Err(_) => {
            if runs_backwards(observations, now, first) {
                let k = choose|k: int| first <= k < n && #[trigger] segment(observations, now, k) < 0;
                if k + 1 < n {
                    assert(observations[k].timestamp > observations[k + 1].timestamp);
                }
            } else if overflows_before(observations, now, first, n) {
                let j = choose|j: int|
                    first <= j < n && #[trigger] overflows_at(observations, now, first, j);
                assert(sums[j + 1] - sums[j] == observations[j].price * segment(
                    observations,
                    now,
                    j,
                ));
                assert(sums[j + 1] == weighted_sum(observations, now, first, j + 1));
            }
        },
    }
}

/// Where no time runs backwards, none of the observations is ahead of the clock.
proof fn lemma_elapsed_not_negative(
    observations: Seq<Observation>,
    now: u64,
    first: int,
    k: int,
)
    requires
        0 <= first <= k < observations.len(),
        forall|i: int| first <= i < observations.len() ==> #[trigger] segment(observations, now, i) >= 0,
    ensures
        observations[k].timestamp <= now,
    decreases observations.len() - k,
{
    assert(segment(observations, now, k) >= 0);
    if k + 1 < observations.len() {
        lemma_elapsed_not_negative(observations, now, first, k + 1);
    }
}

/// A quotient whose fraction is dropped, and that it is no longer than what was
/// divided.
proof fn lemma_truncated_div(sum: int, weight: int)
    requires
        weight > 0,
        i128::MIN <= sum <= i128::MAX,
    ensures
        ({
            let q = truncated_div(sum, weight);
            &&& i128::MIN <= q <= i128::MAX
            &&& sum >= 0 ==> q * weight <= sum < (q + 1) * weight
            &&& sum < 0 ==> (q - 1) * weight < sum <= q * weight
        }),
{
    let size = if sum >= 0 {
        sum
    } else {
        -sum
    };
    let d = size / weight;
    vstd::arithmetic::div_mod::lemma_fundamental_div_mod(size, weight);
    assert(d * weight <= size < (d + 1) * weight && 0 <= d <= size) by (nonlinear_arith)
        requires
            weight > 0,
            size >= 0,
            size == weight * d + size % weight,
            0 <= size % weight < weight,
    ;
    assert((-d) * weight == -(d * weight)) by (nonlinear_arith);
    assert((-d - 1) * weight == -((d + 1) * weight)) by (nonlinear_arith);
}

/// A read looks at prices and times alone: who submitted an observation, and the
/// precision of the prices, do not count.
pub proof fn average_depends_on_prices_and_times(
    observations: Seq<Observation>,
    others: Seq<Observation>,
    config: AssetConfig,
    other_config: AssetConfig,
    now: u64,
)
    requires
        observations.len() == others.len(),
        forall|i: int|
            0 <= i < observations.len() ==> (#[trigger] observations[i]).price == others[i].price
                && observations[i].timestamp == others[i].timestamp,
        config.window_size == other_config.window_size,
        config.max_staleness == other_config.max_staleness,
    ensures
        average(observations, config, now) == average(others, other_config, now),
{
    let n = observations.len() as int;
    let start = window_start(now, config.window_size);
    lemma_first_in_window(observations, start);
    let first = first_in_window(observations, start);
    assert forall|j: int| 0 <= j < first implies others[j].timestamp < start by {
        assert(observations[j].timestamp < start);
    }
    if first < n {
        assert(observations[first].timestamp == others[first].timestamp);
        assert(observations[n - 1].timestamp == others[n - 1].timestamp);
    }
    lemma_first_in_window_unique(others, start, first);
    assert forall|k: int| first <= k < n implies #[trigger] segment(observations, now, k)
        == segment(others, now, k) by {
        assert(observations[k].timestamp == others[k].timestamp);
        if k + 1 < n {
            assert(observations[k + 1].timestamp == others[k + 1].timestamp);
        }
    }
    assert forall|to: int| first <= to <= n implies #[trigger] weighted_sum(
        observations,
        now,
        first,
        to,
    ) == weighted_sum(others, now, first, to) by {
        lemma_same_sum(observations, others, now, first, to);
    }
    assert forall|j: int| first <= j < n implies #[trigger] overflows_at(
        observations,
        now,
        first,
        j,
    ) == overflows_at(others, now, first, j) by {
        assert(segment(observations, now, j) == segment(others, now, j));
        assert(observations[j].price == others[j].price);
        assert(weighted_sum(observations, now, first, j + 1) == weighted_sum(
            others,
            now,
            first,
            j + 1,
        ));
    }
    if runs_backwards(observations, now, first) {
        let k = choose|k: int| first <= k < n && #[trigger] segment(observations, now, k) < 0;
        assert(segment(others, now, k) < 0);
    }
    if runs_backwards(others, now, first) {
        let k = choose|k: int| first <= k < n && #[trigger] segment(others, now, k) < 0;
        assert(segment(observations, now, k) < 0);
    }
    if overflows_before(observations, now, first, n) {
        let j = choose|j: int| first <= j < n && #[trigger] overflows_at(observations, now, first, j);
        assert(overflows_at(others, now, first, j));
    }
    if overflows_before(others, now, first, n) {
        let j = choose|j: int| first <= j < n && #[trigger] overflows_at(others, now, first, j);
        assert(overflows_at(observations, now, first, j));
    }
    if 0 <= first < n {
        assert(observations[first].price == others[first].price);
    }
}

proof fn lemma_same_sum(
    observations: Seq<Observation>,
    others: Seq<Observation>,
    now: u64,
    first: int,
    to: int,
)
    requires
        0 <= first <= to <= observations.len(),
        observations.len() == others.len(),
        forall|i: int|
            0 <= i < observations.len() ==> (#[trigger] observations[i]).price == others[i].price
                && observations[i].timestamp == others[i].timestamp,
    ensures
        weighted_sum(observations, now, first, to) == weighted_sum(others, now, first, to),
    decreases to - first,
{
    if first < to {
        lemma_same_sum(observations, others, now, first, to - 1);
        assert(observations[to - 1].price == others[to - 1].price);
        if to < observations.len() {
            assert(observations[to].timestamp == others[to].timestamp);
        }
    }
}

// ─── What the recorded values stand for ──────────────────────────────

/// A state says of an asset what its feed holds, and of an asset without a feed
/// that nothing is recorded.
pub proof fn state_says_what_the_feeds_hold(oracle: DripOracle, i: int, asset: Address)
    requires
        oracle.wf(),
    ensures
        oracle@.admin == oracle.admin,
        oracle@.touched == oracle.touched@,
        0 <= i < oracle.feeds@.len() ==> oracle@.feeds[oracle.feeds@[i].asset] == (FeedView {
            config: oracle.feeds@[i].config,
            oracles: oracle.feeds@[i].oracles@,
            observations: oracle.feeds@[i].observations@,
        }),
        (forall|j: int| 0 <= j < oracle.feeds@.len() ==> (#[trigger] oracle.feeds@[j]).asset != asset)
            ==> oracle@.feeds[asset] == (FeedView {
            config: None,
            oracles: Seq::empty(),
            observations: Seq::empty(),
        }),
{
    if 0 <= i < oracle.feeds@.len() {
        lemma_feed_of(oracle.feeds@, i);
    }
    assert(oracle@.feeds == all_feeds(oracle.feeds@));
    if forall|j: int| 0 <= j < oracle.feeds@.len() ==> (#[trigger] oracle.feeds@[j]).asset != asset {
        assert(forall|j: int| !is_feed_of(oracle.feeds@, j, asset));
    }
}

/// The lists hold what the host holds, item by item and in order.
pub proof fn lists_hold_what_the_host_holds(
    list: crate::drip_oracle::whitelist::Whitelist,
    buffer: crate::drip_oracle::buffer::ObservationBuffer,
    i: int,
)
    ensures
        list@.len() == host::address_items(list.entries).len(),
        0 <= i < list@.len() ==> (host::address_items(list.entries)[i] matches Some(words)
            ==> list@[i] == (Address { is_contract: words.0, high: words.1, low: words.2 })),
        buffer@.len() == host::observation_items(buffer.entries).len(),
        0 <= i < buffer@.len() ==> (host::observation_items(buffer.entries)[i] matches Some(words)
            ==> buffer@[i] == (Observation {
            price: words.0,
            timestamp: words.1,
            oracle: Address { is_contract: words.2, high: words.3, low: words.4 },
        })),
{
}

} // verus!
