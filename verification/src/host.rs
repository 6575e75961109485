//! What the library takes from the Soroban host: its lists, its SHA-256 and
//! its ed25519 verification.
//!
//! Everything marked `external_body` here is believed, not proved. A host call
//! also draws on the budget and the memory of its `Env`, and aborts when either
//! runs out; the contracts below speak of calls for which both last.
use soroban_env_host::{Env, EnvBase, Host};
use vstd::prelude::*;

use crate::address::AddressWords;

verus! {

/// A price observation inside a host list: price, timestamp, and the words of
/// the address that submitted it.
pub type ObservationWords = (i128, u64, bool, u128, u128);

/// The handle through which a contract reaches its host.
#[verifier::external_type_specification]
#[verifier::external_body]
pub struct ExEnv(soroban_sdk::Env);

/// A list that lives in the host.
#[verifier::external_type_specification]
#[verifier::external_body]
#[verifier::reject_recursive_types(T)]
pub struct ExHostVec<T>(soroban_sdk::Vec<T>);

// ─── Lists of amounts ────────────────────────────────────────────────

/// What a list of amounts holds, in order. The host does not check the type of
/// an item before it is read, so each is `Some` of the amount, or `None` where
/// the item is no `u64`.
pub uninterp spec fn amount_items(list: soroban_sdk::Vec<u64>) -> Seq<Option<u64>>;

/// `soroban_sdk::Vec::len`: the number of items.
#[verifier::external_body]
pub(crate) fn amounts_len(list: &soroban_sdk::Vec<u64>) -> (n: u32)
    ensures
        n == amount_items(*list).len(),
{
    list.len()
}

/// `soroban_sdk::Vec::try_get`: the item at `i`, and `None` past the end or
/// where the item is no `u64`.
#[verifier::external_body]
pub(crate) fn amounts_get(list: &soroban_sdk::Vec<u64>, i: u32) -> (item: Option<u64>)
    ensures
        item == if i < amount_items(*list).len() {
            amount_items(*list)[i as int]
        } else {
            None
        },
{
    list.try_get(i).ok().flatten()
}

// ─── Lists of addresses ──────────────────────────────────────────────

/// What a list of addresses holds, in order: each item is `Some` of the words of
/// an address, or `None` where it is something else.
pub uninterp spec fn address_items(list: soroban_sdk::Vec<(bool, u128, u128)>) -> Seq<
    Option<(bool, u128, u128)>,
>;

/// `soroban_sdk::Vec::new`: an empty list.
#[verifier::external_body]
pub(crate) fn addresses_new(env: &soroban_sdk::Env) -> (list: soroban_sdk::Vec<AddressWords>)
    ensures
        address_items(list) == Seq::<Option<AddressWords>>::empty(),
{
    soroban_sdk::Vec::new(env)
}

/// `soroban_sdk::Vec::len`: the number of items.
#[verifier::external_body]
pub(crate) fn addresses_len(list: &soroban_sdk::Vec<AddressWords>) -> (n: u32)
    ensures
        n == address_items(*list).len(),
{
    list.len()
}

/// `soroban_sdk::Vec::get`: the item at `i`, and `None` past the end. It aborts
/// where the item is not the words of an address.
#[verifier::external_body]
pub(crate) fn addresses_get(list: &soroban_sdk::Vec<AddressWords>, i: u32) -> (item: Option<
    AddressWords,
>)
    requires
        i < address_items(*list).len() ==> address_items(*list)[i as int] is Some,
    ensures
        item == if i < address_items(*list).len() {
            address_items(*list)[i as int]
        } else {
            None
        },
{
    list.get(i)
}

/// `soroban_sdk::Vec::push_back`: appends one item. The host counts items in a
/// `u32`, so the list must not be full.
#[verifier::external_body]
pub(crate) fn addresses_push_back(list: &mut soroban_sdk::Vec<AddressWords>, item: AddressWords)
    requires
        address_items(*old(list)).len() < u32::MAX,
    ensures
        address_items(*final(list)) == address_items(*old(list)).push(Some(item)),
{
    list.push_back(item)
}

// ─── Lists of observations ───────────────────────────────────────────

/// What a list of observations holds, in order: each item is `Some` of the words
/// of an observation, or `None` where it is something else.
pub uninterp spec fn observation_items(
    list: soroban_sdk::Vec<(i128, u64, bool, u128, u128)>,
) -> Seq<Option<(i128, u64, bool, u128, u128)>>;

/// `soroban_sdk::Vec::new`: an empty list.
#[verifier::external_body]
pub(crate) fn observations_new(env: &soroban_sdk::Env) -> (list: soroban_sdk::Vec<
    ObservationWords,
>)
    ensures
        observation_items(list) == Seq::<Option<ObservationWords>>::empty(),
{
    soroban_sdk::Vec::new(env)
}

/// `soroban_sdk::Vec::len`: the number of items.
#[verifier::external_body]
pub(crate) fn observations_len(list: &soroban_sdk::Vec<ObservationWords>) -> (n: u32)
    ensures
        n == observation_items(*list).len(),
{
    list.len()
}

/// `soroban_sdk::Vec::get`: the item at `i`, and `None` past the end. It aborts
/// where the item is not the words of an observation.
#[verifier::external_body]
pub(crate) fn observations_get(list: &soroban_sdk::Vec<ObservationWords>, i: u32) -> (item: Option<
    ObservationWords,
>)
    requires
        i < observation_items(*list).len() ==> observation_items(*list)[i as int] is Some,
    ensures
        item == if i < observation_items(*list).len() {
            observation_items(*list)[i as int]
        } else {
            None
        },
{
    list.get(i)
}

/// `soroban_sdk::Vec::push_back`: appends one item. The host counts items in a
/// `u32`, so the list must not be full.
#[verifier::external_body]
pub(crate) fn observations_push_back(
    list: &mut soroban_sdk::Vec<ObservationWords>,
    item: ObservationWords,
)
    requires
        observation_items(*old(list)).len() < u32::MAX,
    ensures
        observation_items(*final(list)) == observation_items(*old(list)).push(Some(item)),
{
    list.push_back(item)
}

/// `soroban_sdk::Vec::remove`: takes the item at `i` out and closes the gap.
#[verifier::external_body]
pub(crate) fn observations_remove(list: &mut soroban_sdk::Vec<ObservationWords>, i: u32)
    requires
        i < observation_items(*old(list)).len(),
    ensures
        observation_items(*final(list)) == observation_items(*old(list)).remove(i as int),
{
    list.remove(i);
}

// ─── Cryptography ────────────────────────────────────────────────────

/// The SHA-256 digest of `data`.
pub uninterp spec fn sha256_digest(data: Seq<u8>) -> [u8; 32];

/// `soroban_sdk::crypto::Crypto::sha256`: the SHA-256 digest of `data`. The
/// host counts bytes in a `u32`.
#[verifier::external_body]
pub(crate) fn sha256(env: &soroban_sdk::Env, data: &Vec<u8>) -> (digest: [u8; 32])
    requires
        data@.len() <= u32::MAX,
    ensures
        digest == sha256_digest(data@),
{
    env.crypto().sha256(&soroban_sdk::Bytes::from_slice(env, data)).to_array()
}

/// Whether `signature` is a valid ed25519 signature of `message` under
/// `public_key`.
pub uninterp spec fn ed25519_valid(
    public_key: Seq<u8>,
    message: Seq<u8>,
    signature: Seq<u8>,
) -> bool;

/// `soroban_env_host::Host::verify_sig_ed25519`, the host function behind
/// `soroban_sdk::crypto::Crypto::ed25519_verify`, asked on a host of its own:
/// it answers without error exactly when the signature is valid.
#[verifier::external_body]
pub(crate) fn ed25519_check(
    public_key: &[u8; 32],
    message: &[u8; 32],
    signature: &[u8; 64],
) -> (valid: bool)
    ensures
        valid == ed25519_valid(public_key@, message@, signature@),
{
    let host = Host::default();
    match (
        host.bytes_new_from_slice(public_key),
        host.bytes_new_from_slice(message),
        host.bytes_new_from_slice(signature),
    ) {
        (Ok(key), Ok(payload), Ok(sig)) => host.verify_sig_ed25519(key, payload, sig).is_ok(),
        _ => false,
    }
}

/// `soroban_sdk::crypto::Crypto::ed25519_verify`: returns where the signature
/// is valid, and aborts the invocation where it is not.
#[verifier::external_body]
pub(crate) fn ed25519_verify(
    env: &soroban_sdk::Env,
    public_key: &[u8; 32],
    message: &[u8; 32],
    signature: &[u8; 64],
)
    requires
        ed25519_valid(public_key@, message@, signature@),
{
    env.crypto().ed25519_verify(
        &soroban_sdk::BytesN::from_array(env, public_key),
        &soroban_sdk::Bytes::from_array(env, message),
        &soroban_sdk::BytesN::from_array(env, signature),
    )
}

} // verus!
