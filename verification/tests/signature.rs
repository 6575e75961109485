//! The digest of a stream request and its signature.
use conduit::factory::signature::{
    encode_bool, encode_domain, encode_hashes, encode_i128, encode_payload, encode_u64,
    hash_payload, try_verify_signature, verify_signature, Error, SignaturePayload,
};

const FACTORY: [u8; 32] = [9; 32];

fn payload() -> SignaturePayload {
    SignaturePayload {
        sender: [1; 32],
        recipient: [2; 32],
        token: [3; 32],
        deposit: 360_000,
        rate_per_sec: 100,
        start_time: 1_000_000,
        end_time: 1_003_600,
        clawback: true,
        nonce: 7,
        deadline: 1_000_500,
        network_passphrase: b"Test SDF Network ; September 2015".to_vec(),
    }
}

const DIGEST: [u8; 32] = [
    248, 81, 204, 143, 169, 106, 150, 37, 171, 31, 50, 8, 107, 43, 92, 199, 89, 232, 95, 170, 231,
    122, 94, 62, 134, 111, 170, 151, 104, 170, 219, 193,
];

const PUBLIC_KEY: [u8; 32] = [
    3, 161, 7, 191, 243, 206, 16, 190, 29, 112, 221, 24, 231, 75, 192, 153, 103, 228, 214, 48, 155,
    165, 13, 95, 29, 220, 134, 100, 18, 85, 49, 184,
];

const SIGNATURE: [u8; 64] = [
    1, 106, 206, 191, 137, 35, 12, 67, 220, 58, 103, 223, 113, 236, 56, 250, 39, 210, 231, 47, 8,
    76, 254, 246, 22, 205, 146, 7, 194, 135, 129, 63, 67, 5, 169, 179, 49, 199, 189, 117, 43, 127,
    67, 180, 90, 54, 143, 111, 249, 188, 214, 142, 83, 136, 63, 55, 67, 33, 187, 187, 203, 165, 193,
    11,
];

#[test]
fn numbers_are_encoded_in_big_endian_order() {
    assert_eq!(encode_bool(false), 0);
    assert_eq!(encode_bool(true), 1);
    assert_eq!(encode_u64(0x0102_0304_0506_0708), [1, 2, 3, 4, 5, 6, 7, 8]);
    for val in [0, 1, 255, 256, 1 << 32, u64::MAX - 1, u64::MAX] {
        assert_eq!(encode_u64(val), val.to_be_bytes());
    }
    for val in [0, 1, -1, 255, -256, 1 << 100, -(1 << 100), i128::MAX, i128::MIN, i128::MIN + 1] {
        assert_eq!(encode_i128(val), val.to_be_bytes());
    }
}

#[test]
fn encodings_hold_the_fields_in_order() {
    let bytes = encode_domain(&FACTORY);
    assert_eq!(bytes[..26], *b"Conduit Stream Creation v1");
    assert_eq!(bytes[26..], FACTORY);

    let bytes = encode_payload(&payload());
    assert_eq!(bytes.len(), 161 + 33);
    assert_eq!(bytes[0..32], [1; 32]);
    assert_eq!(bytes[32..64], [2; 32]);
    assert_eq!(bytes[64..96], [3; 32]);
    assert_eq!(bytes[96..112], 360_000i128.to_be_bytes());
    assert_eq!(bytes[112..128], 100i128.to_be_bytes());
    assert_eq!(bytes[128..136], 1_000_000u64.to_be_bytes());
    assert_eq!(bytes[136..144], 1_003_600u64.to_be_bytes());
    assert_eq!(bytes[144], 1);
    assert_eq!(bytes[145..153], 7u64.to_be_bytes());
    assert_eq!(bytes[153..161], 1_000_500u64.to_be_bytes());
    assert_eq!(bytes[161..], *b"Test SDF Network ; September 2015");

    let bytes = encode_hashes(&[4; 32], &[5; 32]);
    assert_eq!(bytes[..32], [4; 32]);
    assert_eq!(bytes[32..], [5; 32]);
}

#[test]
fn hash_payload_gives_the_known_digest() {
    let env = soroban_sdk::Env::default();
    assert_eq!(hash_payload(&env, &FACTORY, &payload()), DIGEST);
}

#[test]
fn hash_payload_changes_with_every_field_and_the_factory() {
    let env = soroban_sdk::Env::default();
    let base = payload();
    let mut network_passphrase = base.network_passphrase.clone();
    network_passphrase.push(b'!');
    let others = [
        SignaturePayload { sender: [8; 32], ..base.clone() },
        SignaturePayload { recipient: [8; 32], ..base.clone() },
        SignaturePayload { token: [8; 32], ..base.clone() },
        SignaturePayload { deposit: -360_000, ..base.clone() },
        SignaturePayload { rate_per_sec: 101, ..base.clone() },
        SignaturePayload { start_time: 1_000_001, ..base.clone() },
        SignaturePayload { end_time: 1_003_601, ..base.clone() },
        SignaturePayload { clawback: false, ..base.clone() },
        SignaturePayload { nonce: 8, ..base.clone() },
        SignaturePayload { deadline: 1_000_501, ..base.clone() },
        SignaturePayload { network_passphrase, ..base.clone() },
    ];
    for other in &others {
        assert_ne!(encode_payload(other), encode_payload(&base));
        assert_ne!(hash_payload(&env, &FACTORY, other), DIGEST);
    }
    assert_ne!(hash_payload(&env, &[10; 32], &base), DIGEST);
}

#[test]
fn verify_signature_accepts_a_valid_signature() {
    let env = soroban_sdk::Env::default();
    let res = verify_signature(&env, &FACTORY, &payload(), &PUBLIC_KEY, &SIGNATURE);
    assert_eq!(res, Ok(()));
}

#[test]
fn try_verify_signature_tells_valid_from_invalid() {
    let env = soroban_sdk::Env::default();
    let check = |factory: &[u8; 32], payload: &SignaturePayload, key: &[u8; 32], sig: &[u8; 64]| {
        try_verify_signature(&env, factory, payload, key, sig)
    };
    assert_eq!(check(&FACTORY, &payload(), &PUBLIC_KEY, &SIGNATURE), Ok(()));

    let mut forged = SIGNATURE;
    forged[0] ^= 1;
    let refused = Err(Error::InvalidSignature);
    assert_eq!(check(&FACTORY, &payload(), &PUBLIC_KEY, &forged), refused);
    assert_eq!(check(&FACTORY, &payload(), &[0xff; 32], &SIGNATURE), refused);
    assert_eq!(check(&[10; 32], &payload(), &PUBLIC_KEY, &SIGNATURE), refused);
    let replayed = SignaturePayload { nonce: 8, ..payload() };
    assert_eq!(check(&FACTORY, &replayed, &PUBLIC_KEY, &SIGNATURE), refused);
}
