//! The single price feed and its payouts.
use conduit::address::Address;
use conduit::invocation::Invocation;
use conduit::oracle::{
    power_of_ten, Error, OracleConfig, PriceData, TwapOracleIntegration, MAX_DECIMALS,
};

const ADMIN: Address = Address { is_contract: false, high: 1, low: 1 };
const OTHER: Address = Address { is_contract: false, high: 1, low: 2 };

fn call_at(now: u64) -> Invocation {
    Invocation {
        env: soroban_sdk::Env::default(),
        timestamp: now,
        signers: vec![ADMIN, OTHER],
    }
}

fn config(decimals: u32, max_staleness: u64) -> OracleConfig {
    OracleConfig { oracle_address: OTHER, decimals, asset_peg: 840, max_staleness }
}

fn feed(decimals: u32, max_staleness: u64) -> TwapOracleIntegration {
    let mut feed = TwapOracleIntegration::new();
    assert_eq!(feed.initialize(ADMIN), Ok(()));
    let res = feed.configure_oracle(&call_at(0), &ADMIN, config(decimals, max_staleness));
    assert_eq!(res, Ok(()));
    feed
}

#[test]
fn initialize_accepts_one_call() {
    let mut feed = TwapOracleIntegration::new();
    assert_eq!(feed.initialize(ADMIN), Ok(()));
    assert_eq!(feed.initialize(OTHER), Err(Error::AlreadyInitialized));
    assert_eq!(feed.admin, Some(ADMIN));
}

#[test]
fn setters_need_the_admin() {
    let call = call_at(0);
    let mut feed = TwapOracleIntegration::new();
    let res = feed.configure_oracle(&call, &ADMIN, config(7, 60));
    assert_eq!(res, Err(Error::OracleNotConfigured));
    assert_eq!(feed.submit_price(&call, &ADMIN, 5), Err(Error::OracleNotConfigured));
    assert_eq!(feed.initialize(ADMIN), Ok(()));
    let res = feed.configure_oracle(&call, &OTHER, config(7, 60));
    assert_eq!(res, Err(Error::NotAuthorized));
    assert_eq!(feed.submit_price(&call, &OTHER, 5), Err(Error::NotAuthorized));
    assert_eq!(feed.config, None);
    assert_eq!(feed.price, None);
}

#[test]
fn configure_oracle_rejects_too_many_decimals() {
    let mut feed = feed(7, 60);
    let res = feed.configure_oracle(&call_at(0), &ADMIN, config(MAX_DECIMALS + 1, 60));
    assert_eq!(res, Err(Error::InvalidDecimals));
    assert_eq!(feed.config, Some(config(7, 60)));
    let res = feed.configure_oracle(&call_at(0), &ADMIN, config(MAX_DECIMALS, 60));
    assert_eq!(res, Ok(()));
}

#[test]
fn submitted_price_is_read_until_it_is_stale() {
    let mut feed = feed(7, 60);
    assert_eq!(feed.get_twap_price(&call_at(0)), Err(Error::NoPriceAvailable));
    assert_eq!(feed.submit_price(&call_at(1000), &ADMIN, 0), Err(Error::InvalidPrice));
    assert_eq!(feed.submit_price(&call_at(1000), &ADMIN, 50), Ok(()));
    assert_eq!(feed.price, Some(PriceData { price: 50, updated_at: 1000 }));
    assert_eq!(feed.get_twap_price(&call_at(1060)), Ok(50));
    assert_eq!(feed.get_twap_price(&call_at(1061)), Err(Error::OracleStalePrice));
    // A clock that runs behind finds no age.
    assert_eq!(feed.get_twap_price(&call_at(10)), Ok(50));
    assert!(!feed.locked);
}

#[test]
fn get_twap_price_respects_the_lock_and_releases_its_own() {
    let mut feed = feed(7, 60);
    assert_eq!(feed.submit_price(&call_at(5), &ADMIN, 50), Ok(()));
    feed.locked = true;
    assert_eq!(feed.get_twap_price(&call_at(5)), Err(Error::OracleLocked));
    assert_eq!(
        feed.calculate_fiat_stream_payout(&call_at(5), 1),
        Err(Error::OracleLocked)
    );
    assert!(feed.locked);
    feed.locked = false;
    feed.price = Some(PriceData { price: 0, updated_at: 5 });
    assert_eq!(feed.get_twap_price(&call_at(5)), Err(Error::InvalidPrice));
    assert!(!feed.locked);
    feed.config = None;
    assert_eq!(feed.get_twap_price(&call_at(5)), Err(Error::OracleNotConfigured));
    assert!(!feed.locked);
}

#[test]
fn payout_is_the_value_rounded_down() {
    let call = call_at(5);
    let mut feed = feed(7, 60);
    assert_eq!(feed.submit_price(&call, &ADMIN, 50_000_000), Ok(()));
    assert_eq!(feed.calculate_fiat_stream_payout(&call, 3), Ok(15));
    assert_eq!(feed.submit_price(&call, &ADMIN, 19_999_999), Ok(()));
    assert_eq!(feed.calculate_fiat_stream_payout(&call, 1), Ok(1));
    assert_eq!(feed.calculate_fiat_stream_payout(&call, 10), Ok(19));
    assert_eq!(feed.calculate_fiat_stream_payout(&call, 0), Ok(0));
}

#[test]
fn payout_that_does_not_fit_is_refused() {
    let call = call_at(5);
    let mut feed = feed(0, 60);
    assert_eq!(feed.submit_price(&call, &ADMIN, u64::MAX), Ok(()));
    assert_eq!(feed.calculate_fiat_stream_payout(&call, 1), Ok(u64::MAX));
    assert_eq!(
        feed.calculate_fiat_stream_payout(&call, 2),
        Err(Error::ArithmeticOverflow)
    );
    feed.config = Some(config(MAX_DECIMALS + 1, 60));
    assert_eq!(
        feed.calculate_fiat_stream_payout(&call, 2),
        Err(Error::InvalidDecimals)
    );
    feed.config = Some(config(MAX_DECIMALS, 60));
    assert_eq!(feed.calculate_fiat_stream_payout(&call, u64::MAX), Ok(3));
}

#[test]
fn powers_of_ten_fit_up_to_38() {
    assert_eq!(power_of_ten(0), Some(1));
    assert_eq!(power_of_ten(7), Some(10_000_000));
    assert_eq!(power_of_ten(38), Some(100_000_000_000_000_000_000_000_000_000_000_000_000));
    assert_eq!(power_of_ten(39), None);
    assert_eq!(power_of_ten(u32::MAX), None);
}

#[test]
fn price_feed_error_numbers() {
    assert_eq!(Error::OracleStalePrice.code(), 1001);
    assert_eq!(Error::OracleNotConfigured.code(), 1002);
    assert_eq!(Error::InvalidPrice.code(), 1003);
    assert_eq!(Error::OracleLocked.code(), 1004);
    assert_eq!(Error::CalculationOverflow.code(), 1005);
    assert_eq!(Error::NotAuthorized.code(), 1004);
    assert_eq!(Error::AlreadyInitialized.code(), 1005);
    assert_eq!(Error::NoPriceAvailable.code(), 1006);
    assert_eq!(Error::ArithmeticOverflow.code(), 1007);
    assert_eq!(Error::InvalidDecimals.code(), 1008);
}
