//! Batches of transfers and the lock around them.
use conduit::batch_transfer_processor::{add_up, BatchTransferProcessor, Error};
use soroban_sdk::{Env, IntoVal, TryFromVal, Val, Vec};

#[test]
fn process_batch_sums_amounts_and_releases_lock() {
    let env = Env::default();
    let mut client = BatchTransferProcessor::new();
    let amounts = Vec::from_array(&env, [10u64, 20, 30]);
    assert_eq!(client.process_batch(&amounts), Ok(60));
    assert!(
        !client.locked,
        "lock must be released after a successful call",
    );
}

#[test]
fn process_batch_empty_input_returns_zero() {
    let env = Env::default();
    let mut client = BatchTransferProcessor::new();
    let amounts: Vec<u64> = Vec::new(&env);
    assert_eq!(client.process_batch(&amounts), Ok(0));
    assert!(
        !client.locked,
        "lock must be released after an empty-input call",
    );
}

#[test]
fn process_batch_accepts_exactly_100_entries() {
    let env = Env::default();
    let mut client = BatchTransferProcessor::new();
    let amounts = Vec::from_array(&env, [1u64; 100]);
    assert_eq!(client.process_batch(&amounts), Ok(100));
    assert!(
        !client.locked,
        "lock must be released after a max-sized successful call",
    );
}

#[test]
fn process_batch_rejects_101_entries_and_releases_lock() {
    let env = Env::default();
    let mut client = BatchTransferProcessor::new();
    let amounts = Vec::from_array(&env, [1u64; 101]);
    assert_eq!(client.process_batch(&amounts), Err(Error::BatchTooLarge));
    assert!(
        !client.locked,
        "BatchTooLarge must release the lock so the next caller is not \
         fooled by a stale flag",
    );
}

#[test]
fn process_batch_detects_overflow_and_releases_lock() {
    let env = Env::default();
    let mut client = BatchTransferProcessor::new();
    // `u64::MAX + 1` is the smallest pair that overflows.
    let amounts = Vec::from_array(&env, [u64::MAX, 1u64]);
    assert_eq!(
        client.process_batch(&amounts),
        Err(Error::CalculationOverflow)
    );
    assert!(
        !client.locked,
        "CalculationOverflow must release the lock",
    );
}

#[test]
fn process_batch_rejects_when_lock_is_held() {
    let env = Env::default();
    let mut client = BatchTransferProcessor::new();
    client.locked = true;
    let amounts = Vec::from_array(&env, [42u64]);
    assert_eq!(client.process_batch(&amounts), Err(Error::ProcessorLocked));
    assert!(
        client.locked,
        "ProcessorLocked must short-circuit without touching the lock",
    );
}

#[test]
fn process_batch_takes_a_total_that_just_fits() {
    let env = Env::default();
    let mut client = BatchTransferProcessor::new();
    let amounts = Vec::from_array(&env, [u64::MAX - 1, 1u64]);
    assert_eq!(client.process_batch(&amounts), Ok(u64::MAX));
    assert_eq!(client.process_batch(&amounts), Ok(u64::MAX));
}

/// A list of amounts among which there is one text.
fn mixed(env: &Env, before: u64) -> Vec<u64> {
    let text: Val = soroban_sdk::String::from_str(env, "ten").into_val(env);
    let one: Val = 1u64.into_val(env);
    let first: Val = before.into_val(env);
    let items: Vec<Val> = Vec::from_array(env, [first, one, text]);
    Vec::try_from_val(env, &items.to_val()).unwrap()
}

#[test]
fn try_process_batch_tells_an_item_that_is_no_amount() {
    let env = Env::default();
    let mut client = BatchTransferProcessor::new();
    assert_eq!(client.try_process_batch(&mixed(&env, 5)), None);
    assert!(!client.locked);
    // The total overflows before that item is reached.
    assert_eq!(
        client.try_process_batch(&mixed(&env, u64::MAX)),
        Some(Err(Error::CalculationOverflow))
    );
    client.locked = true;
    assert_eq!(
        client.try_process_batch(&mixed(&env, 5)),
        Some(Err(Error::ProcessorLocked))
    );
    client.locked = false;
    let amounts = Vec::from_array(&env, [10u64, 20]);
    assert_eq!(client.try_process_batch(&amounts), Some(Ok(30)));
}

#[test]
fn add_up_stops_at_the_first_trouble() {
    assert_eq!(add_up(&vec![]), Some(Ok(0)));
    assert_eq!(add_up(&vec![Some(3), Some(4)]), Some(Ok(7)));
    assert_eq!(add_up(&vec![Some(3), None, Some(4)]), None);
    assert_eq!(
        add_up(&vec![Some(u64::MAX), Some(4), None]),
        Some(Err(Error::CalculationOverflow))
    );
}

#[test]
fn batch_transfer_processor_error_type_carries_required_traits_and_named_discriminants() {
    fn assert_traits<T: Copy + Clone + core::fmt::Debug + Eq + PartialEq + PartialOrd + Ord>() {}
    assert_traits::<Error>();
    assert_eq!(Error::ProcessorLocked.code(), 2001);
    assert_eq!(Error::CalculationOverflow.code(), 2002);
    assert_eq!(Error::BatchTooLarge.code(), 2003);
}
