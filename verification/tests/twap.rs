//! The average over buffers that no contract call would build.
use conduit::address::Address;
use conduit::drip_oracle::buffer::ObservationBuffer;
use conduit::drip_oracle::errors::Error;
use conduit::drip_oracle::storage::{AssetConfig, Observation};
use conduit::drip_oracle::twap::compute;
use conduit::invocation::Invocation;

fn call_at(now: u64) -> Invocation {
    Invocation { env: soroban_sdk::Env::default(), timestamp: now, signers: Vec::new() }
}

fn buffer(call: &Invocation, samples: &[(i128, u64)]) -> ObservationBuffer {
    let mut buffer = ObservationBuffer::new(&call.env);
    for (price, timestamp) in samples {
        buffer.push_back(Observation {
            price: *price,
            timestamp: *timestamp,
            oracle: Address { is_contract: true, high: u128::MAX, low: 1 },
        });
    }
    buffer
}

const WIDE: AssetConfig = AssetConfig { decimals: 0, window_size: 1000, max_staleness: 1000 };

#[test]
fn compute_drops_the_fraction_of_a_negative_average() {
    let call = call_at(110);
    let samples = buffer(&call, &[(-10, 100), (-5, 104)]);
    // (-10 * 4 - 5 * 6) / 10 = -7
    assert_eq!(compute(&call, &samples, &WIDE), Ok(-7));
    let samples = buffer(&call, &[(-10, 100), (-5, 105), (0, 107)]);
    // (-50 - 10 + 0) / 10 = -6
    assert_eq!(compute(&call, &samples, &WIDE), Ok(-6));
    let call = call_at(103);
    let samples = buffer(&call, &[(-10, 100), (0, 101)]);
    // -10 / 3 = -3.33..
    assert_eq!(compute(&call, &samples, &WIDE), Ok(-3));
}

#[test]
fn compute_needs_time_to_have_passed() {
    let call = call_at(100);
    let samples = buffer(&call, &[(10, 100), (20, 100)]);
    assert_eq!(compute(&call, &samples, &WIDE), Err(Error::ArithmeticOverflow));
}

#[test]
fn compute_takes_a_window_that_reaches_before_time_zero() {
    let call = call_at(10);
    let samples = buffer(&call, &[(10, 0), (20, 5)]);
    assert_eq!(compute(&call, &samples, &WIDE), Ok(15));
}

#[test]
fn compute_refuses_at_the_exact_bounds() {
    let config = AssetConfig { decimals: 0, window_size: 50, max_staleness: 20 };
    let call = call_at(120);
    let samples = buffer(&call, &[(10, 100)]);
    assert_eq!(compute(&call, &samples, &config), Ok(10));
    assert_eq!(compute(&call_at(121), &samples, &config), Err(Error::PriceStale));
    assert_eq!(compute(&call_at(150), &samples, &config), Err(Error::PriceStale));
    assert_eq!(compute(&call_at(151), &samples, &config), Err(Error::InsufficientSamples));
}

#[test]
fn compute_refuses_observations_out_of_order() {
    let call = call_at(200);
    let samples = buffer(&call, &[(10, 150), (20, 140), (30, 160)]);
    assert_eq!(compute(&call, &samples, &WIDE), Err(Error::ArithmeticOverflow));
    // The sum overflows before the disorder is met.
    let samples = buffer(&call, &[(i128::MAX, 100), (20, 150), (30, 140)]);
    assert_eq!(compute(&call, &samples, &WIDE), Err(Error::ArithmeticOverflow));
}

#[test]
fn compute_refuses_a_newest_observation_ahead_of_the_clock() {
    let config = AssetConfig { decimals: 0, window_size: 100, max_staleness: 100 };
    let call = call_at(1000);
    let samples = buffer(&call, &[(100, 990), (200, 1010)]);
    assert_eq!(compute(&call, &samples, &config), Err(Error::ArithmeticOverflow));
    assert_eq!(compute(&call_at(1009), &samples, &config), Err(Error::ArithmeticOverflow));
    assert_eq!(compute(&call_at(1010), &samples, &config), Ok(100));
    // A lone observation needs no duration.
    let samples = buffer(&call, &[(200, 1010)]);
    assert_eq!(compute(&call, &samples, &config), Ok(200));
}

#[test]
fn buffer_keeps_extreme_values() {
    let call = call_at(0);
    let mut samples = buffer(&call, &[(i128::MIN, u64::MAX), (i128::MAX, 0), (-1, 7)]);
    assert_eq!(samples.len(), 3);
    assert_eq!(samples.get_unchecked_price(0), i128::MIN);
    assert_eq!(samples.get_unchecked_ts(0), u64::MAX);
    assert_eq!(
        samples.get(1),
        Some(Observation {
            price: i128::MAX,
            timestamp: 0,
            oracle: Address { is_contract: true, high: u128::MAX, low: 1 },
        })
    );
    samples.remove_oldest();
    assert_eq!(samples.len(), 2);
    assert_eq!(samples.get_unchecked_price(0), i128::MAX);
    assert_eq!(samples.last().unwrap().price, -1);
    assert_eq!(samples.get(2), None);
}
