//! The price oracle: setup, whitelists, submissions and the average.
use conduit::address::Address;
use conduit::drip_oracle::errors::Error;
use conduit::drip_oracle::storage::DataKey;
use conduit::drip_oracle::twap::{BUFFER_MAX, CLOCK_DRIFT_TOLERANCE, MAX_DECIMALS};
use conduit::drip_oracle::DripOracle;
use conduit::invocation::Invocation;

/// The `n`th of a set of distinct addresses.
fn address(n: u128) -> Address {
    Address { is_contract: n % 2 == 0, high: 77, low: n }
}

const ADMIN: u128 = 1;
const ASSET: u128 = 2;
const ORACLE: u128 = 3;
const IMPOSTOR: u128 = 5;

/// A call at time `now` that everybody has signed.
fn base_call(now: u64) -> Invocation {
    Invocation {
        env: soroban_sdk::Env::default(),
        timestamp: now,
        signers: (0..20).map(address).collect(),
    }
}

fn start() -> Invocation {
    base_call(1_000_000)
}

fn advance(call: &mut Invocation, secs: u64) {
    call.timestamp += secs;
}

fn deploy() -> DripOracle {
    let mut client = DripOracle::new();
    assert_eq!(client.init(address(ADMIN)), Ok(()));
    client
}

fn configure(client: &mut DripOracle, call: &Invocation, window_size: u64, max_staleness: u64) {
    let res = client.configure_asset(
        call,
        &address(ADMIN),
        address(ASSET),
        7,
        window_size,
        max_staleness,
    );
    assert_eq!(res, Ok(()));
}

fn deploy_with_oracle(call: &Invocation, window_size: u64, max_staleness: u64) -> DripOracle {
    let mut client = deploy();
    configure(&mut client, call, window_size, max_staleness);
    let res = client.add_oracle(call, &address(ADMIN), address(ASSET), address(ORACLE));
    assert_eq!(res, Ok(()));
    client
}

fn submit(
    client: &mut DripOracle,
    call: &Invocation,
    price: i128,
    timestamp: u64,
) -> Result<(), Error> {
    client.submit_observation(call, address(ORACLE), address(ASSET), price, timestamp)
}

// ─── init ────────────────────────────────────────────────────────────

#[test]
fn init_accepts_first_call_and_rejects_duplicate() {
    let mut client = deploy();
    assert_eq!(client.admin_address(), Some(address(ADMIN)));

    let res = client.init(address(ADMIN));
    assert_eq!(res, Err(Error::AlreadyInitialized));
    assert_eq!(client.init(address(IMPOSTOR)), Err(Error::AlreadyInitialized));
    assert_eq!(client.admin_address(), Some(address(ADMIN)));
}

// ─── configure_asset ─────────────────────────────────────────────────

#[test]
fn configure_asset_persists_and_round_trips_admin_address() {
    let call = start();
    let mut client = deploy();
    configure(&mut client, &call, 300, 600);
    assert_eq!(client.observation_count(&address(ASSET)), 0);
    assert_eq!(client.oracle_count(&address(ASSET)), 0);
    assert_eq!(client.admin_address(), Some(address(ADMIN)));
}

#[test]
fn configure_asset_accepts_window_greater_than_max_staleness() {
    let call = start();
    let mut client = deploy();
    let res = client.configure_asset(&call, &address(ADMIN), address(ASSET), 7, 600, 300);
    assert!(
        res.is_ok(),
        "window > stale is allowed"
    );
}

#[test]
fn configure_asset_rejects_decimals_above_max() {
    let call = start();
    let mut client = deploy();
    let bad_decimals = MAX_DECIMALS + 1;
    let res =
        client.configure_asset(&call, &address(ADMIN), address(ASSET), bad_decimals, 300, 600);
    assert_eq!(res, Err(Error::InvalidConfig));
    let res =
        client.configure_asset(&call, &address(ADMIN), address(ASSET), MAX_DECIMALS, 300, 600);
    assert_eq!(res, Ok(()));
}

#[test]
fn configure_asset_rejects_zero_window_or_staleness() {
    let call = start();
    let mut client = deploy();
    let res = client.configure_asset(&call, &address(ADMIN), address(ASSET), 7, 0, 600);
    assert_eq!(res, Err(Error::InvalidConfig));
    let res = client.configure_asset(&call, &address(ADMIN), address(ASSET), 7, 300, 0);
    assert_eq!(res, Err(Error::InvalidConfig));
}

#[test]
fn configure_asset_rejects_non_admin() {
    let call = start();
    let mut client = deploy();
    let res = client.configure_asset(&call, &address(IMPOSTOR), address(ASSET), 7, 300, 600);
    assert_eq!(res, Err(Error::NotAuthorized));
}

#[test]
fn configure_asset_rejects_before_init() {
    let call = start();
    let mut client = DripOracle::new();
    let res = client.configure_asset(&call, &address(ADMIN), address(ASSET), 7, 300, 600);
    assert_eq!(res, Err(Error::NotInitialized));
}

// ─── whitelist ───────────────────────────────────────────────────────

#[test]
fn add_oracle_upserts_idempotent() {
    let call = start();
    let mut client = deploy();
    configure(&mut client, &call, 300, 600);

    let res = client.add_oracle(&call, &address(ADMIN), address(ASSET), address(ORACLE));
    assert_eq!(res, Ok(()));
    assert!(client.is_whitelisted(&address(ASSET), &address(ORACLE)));
    assert_eq!(client.oracle_count(&address(ASSET)), 1);

    // Second add is a no-op.
    let res = client.add_oracle(&call, &address(ADMIN), address(ASSET), address(ORACLE));
    assert_eq!(res, Ok(()));
    assert_eq!(client.oracle_count(&address(ASSET)), 1);
}

#[test]
fn add_oracle_rejects_unconfigured_asset() {
    let call = start();
    let mut client = deploy();
    let res = client.add_oracle(&call, &address(ADMIN), address(ASSET), address(ORACLE));
    assert_eq!(res, Err(Error::AssetNotConfigured));
}

#[test]
fn remove_oracle_is_idempotent() {
    let call = start();
    let mut client = deploy_with_oracle(&call, 300, 600);
    let res = client.remove_oracle(&call, &address(ADMIN), address(ASSET), address(ORACLE));
    assert_eq!(res, Ok(()));
    assert!(!client.is_whitelisted(&address(ASSET), &address(ORACLE)));

    // Removing a non-whitelisted oracle is a no-op, not an error.
    let res = client.remove_oracle(&call, &address(ADMIN), address(ASSET), address(ORACLE));
    assert!(res.is_ok());
}

#[test]
fn whitelist_calls_reject_non_admin_and_uninitialized() {
    let call = start();
    let mut client = DripOracle::new();
    let (admin, asset, oracle) = (address(ADMIN), address(ASSET), address(ORACLE));
    assert_eq!(
        client.add_oracle(&call, &admin, asset, oracle),
        Err(Error::NotInitialized)
    );
    assert_eq!(
        client.remove_oracle(&call, &admin, asset, oracle),
        Err(Error::NotInitialized)
    );
    let mut client = deploy_with_oracle(&call, 300, 600);
    assert_eq!(
        client.add_oracle(&call, &address(IMPOSTOR), asset, address(IMPOSTOR)),
        Err(Error::NotAuthorized)
    );
    assert_eq!(
        client.remove_oracle(&call, &address(IMPOSTOR), asset, oracle),
        Err(Error::NotAuthorized)
    );
    assert!(client.is_whitelisted(&asset, &oracle));
    assert_eq!(client.oracle_count(&asset), 1);
}

#[test]
fn remove_oracle_keeps_the_others_in_order() {
    let call = start();
    let mut client = deploy_with_oracle(&call, 300, 600);
    for n in [7, 9, 11] {
        let res = client.add_oracle(&call, &address(ADMIN), address(ASSET), address(n));
        assert_eq!(res, Ok(()));
    }
    let res = client.remove_oracle(&call, &address(ADMIN), address(ASSET), address(9));
    assert_eq!(res, Ok(()));
    let list = &client.feeds[0].oracles;
    assert_eq!(list.len(), 3);
    assert_eq!(list.get(0), Some(address(ORACLE)));
    assert_eq!(list.get(1), Some(address(7)));
    assert_eq!(list.get(2), Some(address(11)));
    assert_eq!(list.get(3), None);
}

#[test]
fn remove_oracle_undoes_add_oracle() {
    let call = start();
    let mut client = deploy_with_oracle(&call, 300, 600);
    let (admin, asset) = (address(ADMIN), address(ASSET));
    assert_eq!(client.add_oracle(&call, &admin, asset, address(8)), Ok(()));
    assert_eq!(client.remove_oracle(&call, &admin, asset, address(8)), Ok(()));
    assert_eq!(client.oracle_count(&asset), 1);
    assert!(client.is_whitelisted(&asset, &address(ORACLE)));
    assert!(!client.is_whitelisted(&asset, &address(8)));
}

#[test]
fn addresses_differ_by_kind_and_by_each_half() {
    let call = start();
    let client = deploy_with_oracle(&call, 300, 600);
    let listed = address(ORACLE);
    for other in [
        Address { is_contract: !listed.is_contract, ..listed },
        Address { high: listed.high + 1, ..listed },
        Address { low: listed.low + 1, ..listed },
    ] {
        assert!(!client.is_whitelisted(&address(ASSET), &other));
    }
    let words = listed.words();
    assert_eq!(words, (false, 77, 3));
    assert_eq!(Address::from_words(words), listed);
}

#[test]
fn assets_do_not_share_lists() {
    let call = start();
    let mut client = deploy_with_oracle(&call, 300, 600);
    let second = address(4);
    let res = client.configure_asset(&call, &address(ADMIN), second, 9, 60, 60);
    assert_eq!(res, Ok(()));
    assert!(!client.is_whitelisted(&second, &address(ORACLE)));
    assert_eq!(submit(&mut client, &call, 5, 1_000_000), Ok(()));
    assert_eq!(client.observation_count(&second), 0);
    assert_eq!(client.observation_count(&address(ASSET)), 1);
}

#[test]
fn touched_entries_are_those_written() {
    let call = start();
    let (admin, asset, oracle) = (address(ADMIN), address(ASSET), address(ORACLE));
    let mut client = deploy();
    configure(&mut client, &call, 300, 600);
    assert_eq!(client.touched, vec![DataKey::AssetConfig(asset)]);
    client.touched.clear();
    assert_eq!(client.remove_oracle(&call, &admin, asset, oracle), Ok(()));
    assert!(client.touched.is_empty());
    assert_eq!(client.add_oracle(&call, &admin, asset, oracle), Ok(()));
    assert_eq!(client.touched, vec![DataKey::Oracles(asset)]);
    assert_eq!(client.add_oracle(&call, &admin, asset, oracle), Ok(()));
    assert_eq!(client.touched, vec![DataKey::Oracles(asset)]);
    client.touched.clear();
    assert_eq!(submit(&mut client, &call, 5, 1_000_000), Ok(()));
    assert_eq!(
        client.touched,
        vec![DataKey::Observations(asset), DataKey::Oracles(asset)]
    );
    client.touched.clear();
    assert_eq!(
        submit(&mut client, &call, 5, 1_000_000),
        Err(Error::TimestampInvalid)
    );
    assert!(client.touched.is_empty());
    assert_eq!(client.remove_oracle(&call, &admin, asset, oracle), Ok(()));
    assert_eq!(client.touched, vec![DataKey::Oracles(asset)]);
}

// ─── submit_observation ──────────────────────────────────────────────

#[test]
fn submission_changes_the_buffer_of_its_asset_alone() {
    let call = start();
    let mut client = deploy_with_oracle(&call, 300, 600);
    let (asset, oracle, other) = (address(ASSET), address(ORACLE), address(8));
    let config = client.feeds[0].config;
    for (timestamp, expected) in [
        (1_000_000, Ok(())),
        (1_000_000, Err(Error::TimestampInvalid)),
        (1_000_031, Err(Error::TimestampInvalid)),
    ] {
        assert_eq!(submit(&mut client, &call, 5, timestamp), expected);
        assert_eq!(client.admin_address(), Some(address(ADMIN)));
        assert_eq!(client.feeds.len(), 1);
        assert_eq!(client.feeds[0].config, config);
        assert_eq!(client.oracle_count(&asset), 1);
        assert!(client.is_whitelisted(&asset, &oracle));
        assert_eq!(client.observation_count(&asset), 1);
        assert_eq!(client.observation_count(&other), 0);
    }
}

#[test]
fn submit_observation_appends_and_persists() {
    let call = start();
    let mut client = deploy_with_oracle(&call, 300, 600);
    let now = call.timestamp;
    assert_eq!(submit(&mut client, &call, 1_000_000, now), Ok(()));
    assert_eq!(client.observation_count(&address(ASSET)), 1);
    let stored = client.feeds[0].observations.get(0).unwrap();
    assert_eq!(stored.price, 1_000_000);
    assert_eq!(stored.timestamp, now);
    assert_eq!(stored.oracle, address(ORACLE));
}

#[test]
fn submit_observation_rejects_non_whitelist() {
    let call = start();
    let mut client = deploy_with_oracle(&call, 300, 600);
    let res = client.submit_observation(
        &call,
        address(IMPOSTOR),
        address(ASSET),
        1_000_000,
        1_000_000,
    );
    assert_eq!(res, Err(Error::OracleNotWhitelisted));
}

#[test]
fn submit_observation_rejects_non_positive_price() {
    let call = start();
    let mut client = deploy_with_oracle(&call, 300, 600);
    let now = call.timestamp;
    assert_eq!(submit(&mut client, &call, 0, now), Err(Error::InvalidPrice));
    assert_eq!(submit(&mut client, &call, -1, now), Err(Error::InvalidPrice));
}

#[test]
fn submit_observation_rejects_unconfigured_asset() {
    let call = start();
    let mut client = deploy();
    assert_eq!(
        submit(&mut client, &call, 1_000_000, 1_000_000),
        Err(Error::AssetNotConfigured)
    );
}

#[test]
fn submit_observation_rejects_non_monotonic_timestamp() {
    let mut call = start();
    let mut client = deploy_with_oracle(&call, 300, 600);
    let now = call.timestamp;
    assert_eq!(submit(&mut client, &call, 1_000_000, now), Ok(()));
    // Equal: rejected.
    let res = submit(&mut client, &call, 1_001_000, now);
    assert_eq!(res, Err(Error::TimestampInvalid));
    advance(&mut call, 5);
    // Older by 5s: rejected.
    let older = call.timestamp - 5;
    let res = submit(&mut client, &call, 1_001_000, older);
    assert_eq!(res, Err(Error::TimestampInvalid));
    let res = submit(&mut client, &call, 1_001_000, older + 1);
    assert_eq!(res, Ok(()));
}

#[test]
fn submit_observation_rejects_far_future_timestamp() {
    let call = start();
    let mut client = deploy_with_oracle(&call, 300, 600);
    let now = call.timestamp;
    let res = submit(&mut client, &call, 1_000_000, now + CLOCK_DRIFT_TOLERANCE + 1);
    assert_eq!(res, Err(Error::TimestampInvalid));
    let res = submit(&mut client, &call, 1_000_000, now + CLOCK_DRIFT_TOLERANCE);
    assert_eq!(res, Ok(()));
}

#[test]
fn submit_observation_checks_price_before_asset_before_whitelist_before_time() {
    let call = start();
    let mut client = deploy();
    let far = call.timestamp + 1000;
    assert_eq!(submit(&mut client, &call, 0, far), Err(Error::InvalidPrice));
    assert_eq!(submit(&mut client, &call, 1, far), Err(Error::AssetNotConfigured));
    configure(&mut client, &call, 300, 600);
    assert_eq!(submit(&mut client, &call, 1, far), Err(Error::OracleNotWhitelisted));
    let res = client.add_oracle(&call, &address(ADMIN), address(ASSET), address(ORACLE));
    assert_eq!(res, Ok(()));
    assert_eq!(submit(&mut client, &call, 1, far), Err(Error::TimestampInvalid));
}

// ─── buffer rollover and get_twap ────────────────────────────────────

#[test]
fn buffer_caps_at_buffer_max_rolling_oldest_out() {
    let mut call = start();
    let mut client = deploy_with_oracle(&call, 600, 600);
    let mut ts = call.timestamp;
    for _ in 0..(BUFFER_MAX + 5) {
        assert_eq!(submit(&mut client, &call, 1_000_000, ts), Ok(()));
        advance(&mut call, 1);
        ts = call.timestamp;
    }
    assert_eq!(client.observation_count(&address(ASSET)), BUFFER_MAX);
    let buffer = &client.feeds[0].observations;
    assert_eq!(buffer.get_unchecked_ts(0), 1_000_005);
    assert_eq!(buffer.last().unwrap().timestamp, 1_000_036);
    assert!(BUFFER_MAX <= 256);
}

#[test]
fn get_twap_single_sample_returns_its_price() {
    let call = start();
    let mut client = deploy_with_oracle(&call, 300, 600);
    assert_eq!(submit(&mut client, &call, 1_234_567, call.timestamp), Ok(()));

    let (price, decimals) = client.get_twap(&call, &address(ASSET)).unwrap();
    assert_eq!(price, 1_234_567);
    assert_eq!(decimals, 7);
}

#[test]
fn get_twap_two_samples_compute_time_weighted_average() {
    let mut call = start();
    let mut client = deploy_with_oracle(&call, 600, 600);

    let start = call.timestamp;
    assert_eq!(submit(&mut client, &call, 100, start), Ok(()));
    advance(&mut call, 60);
    assert_eq!(submit(&mut client, &call, 200, start + 60), Ok(()));

    // Price 100 stood for 60 s, price 200 for none yet.
    let (price, _dec) = client.get_twap(&call, &address(ASSET)).unwrap();
    assert_eq!(price, 100);
}

#[test]
fn get_twap_three_samples_with_zero_price_later_segment() {
    let mut call = start();
    let mut client = deploy_with_oracle(&call, 1000, 1000);

    let start = call.timestamp;
    assert_eq!(submit(&mut client, &call, 100, start), Ok(()));
    advance(&mut call, 60);
    assert_eq!(submit(&mut client, &call, 200, start + 60), Ok(()));
    advance(&mut call, 60);
    assert_eq!(submit(&mut client, &call, 100, start + 120), Ok(()));

    // (100 * 60 + 200 * 60 + 100 * 0) / 120
    let (price, _) = client.get_twap(&call, &address(ASSET)).unwrap();
    assert_eq!(price, 150);
}

#[test]
fn get_twap_counts_the_newest_price_until_now() {
    let mut call = start();
    let mut client = deploy_with_oracle(&call, 1000, 1000);
    let start = call.timestamp;
    assert_eq!(submit(&mut client, &call, 100, start), Ok(()));
    advance(&mut call, 10);
    assert_eq!(submit(&mut client, &call, 201, start + 10), Ok(()));
    advance(&mut call, 20);
    // (100 * 10 + 201 * 20) / 30 = 167.33..
    assert_eq!(client.get_twap(&call, &address(ASSET)), Ok((167, 7)));
}

#[test]
fn get_twap_leaves_out_what_is_before_the_window() {
    let mut call = start();
    let mut client = deploy_with_oracle(&call, 100, 100);
    let start = call.timestamp;
    assert_eq!(submit(&mut client, &call, 1_000_000, start), Ok(()));
    advance(&mut call, 60);
    assert_eq!(submit(&mut client, &call, 10, start + 60), Ok(()));
    advance(&mut call, 20);
    assert_eq!(submit(&mut client, &call, 20, start + 80), Ok(()));
    advance(&mut call, 40);
    // The window opens at start + 20: (10 * 20 + 20 * 40) / 60 = 16.66..
    assert_eq!(client.get_twap(&call, &address(ASSET)), Ok((16, 7)));
    // An observation at the very opening of the window is in it.
    let mut call = base_call(start + 160);
    assert_eq!(client.get_twap(&call, &address(ASSET)), Ok((18, 7)));
    advance(&mut call, 1);
    assert_eq!(client.get_twap(&call, &address(ASSET)), Ok((20, 7)));
}

#[test]
fn reconfiguring_reads_the_same_buffer_through_another_window() {
    let mut call = start();
    let mut client = deploy_with_oracle(&call, 1000, 1000);
    let start = call.timestamp;
    assert_eq!(submit(&mut client, &call, 100, start), Ok(()));
    advance(&mut call, 60);
    assert_eq!(submit(&mut client, &call, 200, start + 60), Ok(()));
    advance(&mut call, 60);
    assert_eq!(client.get_twap(&call, &address(ASSET)), Ok((150, 7)));
    configure(&mut client, &call, 60, 1000);
    assert_eq!(client.observation_count(&address(ASSET)), 2);
    assert!(client.is_whitelisted(&address(ASSET), &address(ORACLE)));
    assert_eq!(client.get_twap(&call, &address(ASSET)), Ok((200, 7)));
}

#[test]
fn get_twap_stays_between_the_prices() {
    let mut call = start();
    let mut client = deploy_with_oracle(&call, 1000, 1000);
    for (gap, price) in [(3, 17), (5, 90), (11, 4), (2, 55)] {
        advance(&mut call, gap);
        let now = call.timestamp;
        assert_eq!(submit(&mut client, &call, price, now), Ok(()));
    }
    advance(&mut call, 7);
    let (price, _) = client.get_twap(&call, &address(ASSET)).unwrap();
    assert!(4 <= price && price <= 90);
    // (17 * 5 + 90 * 11 + 4 * 2 + 55 * 7) / 25 = 58.72
    assert_eq!(price, 58);
}

#[test]
fn get_twap_of_a_constant_price_is_that_price() {
    let mut call = start();
    let mut client = deploy_with_oracle(&call, 1000, 1000);
    for _ in 0..5 {
        let now = call.timestamp;
        assert_eq!(submit(&mut client, &call, 37, now), Ok(()));
        advance(&mut call, 13);
    }
    assert_eq!(client.get_twap(&call, &address(ASSET)), Ok((37, 7)));
}

#[test]
fn get_twap_rejects_when_newest_observation_is_stale() {
    let mut call = start();
    let mut client = deploy_with_oracle(&call, 300, 100);
    assert_eq!(submit(&mut client, &call, 100, call.timestamp), Ok(()));
    advance(&mut call, 200);
    let res = client.get_twap(&call, &address(ASSET));
    assert_eq!(res, Err(Error::PriceStale));
}

#[test]
fn get_twap_rejects_insufficient_samples_when_only_obs_outside_window() {
    let mut call = start();
    let mut client = deploy_with_oracle(&call, 60, 600);
    assert_eq!(submit(&mut client, &call, 100, call.timestamp), Ok(()));
    // Past the window (60s) but well within staleness (600s).
    advance(&mut call, 120);
    let res = client.get_twap(&call, &address(ASSET));
    assert_eq!(res, Err(Error::InsufficientSamples));
}

#[test]
fn get_twap_rejects_insufficient_samples_when_buffer_empty() {
    let call = start();
    let mut client = deploy();
    configure(&mut client, &call, 60, 600);
    let res = client.get_twap(&call, &address(ASSET));
    assert_eq!(res, Err(Error::InsufficientSamples));
}

#[test]
fn get_twap_is_a_no_op_on_unconfigured_asset() {
    let call = start();
    let client = deploy();
    let res = client.get_twap(&call, &address(ASSET));
    assert_eq!(res, Err(Error::AssetNotConfigured));
}

#[test]
fn get_twap_reports_overflow() {
    let mut call = start();
    let mut client = deploy_with_oracle(&call, 1000, 1000);
    let start = call.timestamp;
    assert_eq!(submit(&mut client, &call, i128::MAX, start), Ok(()));
    assert_eq!(client.get_twap(&call, &address(ASSET)), Ok((i128::MAX, 7)));
    advance(&mut call, 1);
    assert_eq!(submit(&mut client, &call, 1, start + 1), Ok(()));
    // The sum is i128::MAX * 1 + 1 * 0.
    assert_eq!(client.get_twap(&call, &address(ASSET)), Ok((i128::MAX, 7)));
    advance(&mut call, 1);
    // One more unit does not fit.
    assert_eq!(
        client.get_twap(&call, &address(ASSET)),
        Err(Error::ArithmeticOverflow)
    );
}

#[test]
fn get_twap_refuses_a_newest_observation_ahead_of_the_clock() {
    let call = start();
    let mut client = deploy_with_oracle(&call, 300, 600);
    let now = call.timestamp;
    assert_eq!(submit(&mut client, &call, 100, now), Ok(()));
    assert_eq!(client.get_twap(&call, &address(ASSET)), Ok((100, 7)));
    assert_eq!(submit(&mut client, &call, 200, now + 20), Ok(()));
    assert_eq!(
        client.get_twap(&call, &address(ASSET)),
        Err(Error::ArithmeticOverflow)
    );
    let later = base_call(now + 20);
    assert_eq!(client.get_twap(&later, &address(ASSET)), Ok((100, 7)));
}

// ─── accessors ───────────────────────────────────────────────────────

#[test]
fn is_whitelisted_false_on_unconfigured_asset() {
    let client = deploy();
    assert!(!client.is_whitelisted(&address(ASSET), &address(ORACLE)));
}

#[test]
fn admin_address_returns_none_before_init() {
    let client = DripOracle::new();
    assert_eq!(client.admin_address(), None);
}

#[test]
fn tests_error_type_carries_required_traits_and_named_discriminants() {
    fn assert_traits<T: Copy + Clone + core::fmt::Debug + Eq + PartialEq + PartialOrd + Ord>() {}
    assert_traits::<Error>();
    assert_eq!(Error::NotInitialized.code(), 1);
    assert_eq!(Error::AlreadyInitialized.code(), 2);
    assert_eq!(Error::AssetNotConfigured.code(), 3);
    assert_eq!(Error::OracleNotWhitelisted.code(), 4);
    assert_eq!(Error::TimestampInvalid.code(), 5);
    assert_eq!(Error::PriceStale.code(), 6);
    assert_eq!(Error::InsufficientSamples.code(), 7);
    assert_eq!(Error::ArithmeticOverflow.code(), 8);
    assert_eq!(Error::InvalidPrice.code(), 9);
    assert_eq!(Error::InvalidConfig.code(), 10);
    assert_eq!(Error::NotAuthorized.code(), 11);
}
