//! The digest that a sender signs to create a stream from another chain.
use vstd::arithmetic::power::pow;
use vstd::prelude::*;

use crate::host;
use crate::host::{ed25519_valid, sha256_digest};

verus! {

/// Why a signature was refused.
#[derive(Copy, Clone, Debug, PartialEq, Eq, Structural)]
pub enum Error {
    /// The signature is not one of the payload's digest under the public key.
    InvalidSignature,
}

/// What is signed off-chain to create a stream: every parameter that affects
/// the stream, the network it is for, a nonce and a deadline.
#[derive(Clone, Debug, PartialEq, Eq)]
pub struct SignaturePayload {
    pub sender: [u8; 32],
    pub recipient: [u8; 32],
    pub token: [u8; 32],
    pub deposit: i128,
    pub rate_per_sec: i128,
    pub start_time: u64,
    pub end_time: u64,
    pub clawback: bool,
    pub nonce: u64,
    pub deadline: u64,
    pub network_passphrase: Vec<u8>,
}

/// The contents of a payload.
#[verifier::ext_equal]
pub struct PayloadView {
    pub sender: Seq<u8>,
    pub recipient: Seq<u8>,
    pub token: Seq<u8>,
    pub deposit: i128,
    pub rate_per_sec: i128,
    pub start_time: u64,
    pub end_time: u64,
    pub clawback: bool,
    pub nonce: u64,
    pub deadline: u64,
    pub network_passphrase: Seq<u8>,
}

impl View for SignaturePayload {
    type V = PayloadView;

    open spec fn view(&self) -> PayloadView {
        PayloadView {
            sender: self.sender@,
            recipient: self.recipient@,
            token: self.token@,
            deposit: self.deposit,
            rate_per_sec: self.rate_per_sec,
            start_time: self.start_time,
            end_time: self.end_time,
            clawback: self.clawback,
            nonce: self.nonce,
            deadline: self.deadline,
            network_passphrase: self.network_passphrase@,
        }
    }
}

// ─── What is hashed ──────────────────────────────────────────────────

/// The last `len` base-256 digits of `value`, the most significant first.
pub open spec fn big_endian(value: nat, len: nat) -> Seq<u8>
    decreases len,
{
    if len == 0 {
        Seq::empty()
    } else {
        big_endian(value / 256, (len - 1) as nat).push((value % 256) as u8)
    }
}

/// The number whose 128 bits are those of `value` in two's complement.
pub open spec fn twos_complement(value: i128) -> nat {
    if value >= 0 {
        value as nat
    } else {
        (value + 0x1_0000_0000_0000_0000_0000_0000_0000_0000) as nat
    }
}

/// A truth value as one byte.
pub open spec fn bool_byte(val: bool) -> u8 {
    if val {
        1
    } else {
        0
    }
}

/// The tag that sets these digests apart from those of other protocols:
/// `Conduit Stream Creation v1` in ASCII.
pub open spec fn domain_tag() -> Seq<u8> {
    seq![
        67u8, 111u8, 110u8, 100u8, 117u8, 105u8, 116u8, 32u8,
        83u8, 116u8, 114u8, 101u8, 97u8, 109u8, 32u8,
        67u8, 114u8, 101u8, 97u8, 116u8, 105u8, 111u8, 110u8, 32u8,
        118u8, 49u8,
    ]
}

/// What is hashed of the place a signature is for: the tag and the factory.
pub open spec fn domain_input(factory_address: Seq<u8>) -> Seq<u8> {
    domain_tag() + factory_address
}

/// What is hashed of a payload: its fields one after the other, the numbers in
/// big-endian order, the network passphrase last.
pub open spec fn struct_input(payload: PayloadView) -> Seq<u8> {
    payload.sender + payload.recipient + payload.token
        + big_endian(twos_complement(payload.deposit), 16)
        + big_endian(twos_complement(payload.rate_per_sec), 16)
        + big_endian(payload.start_time as nat, 8)
        + big_endian(payload.end_time as nat, 8)
        + seq![bool_byte(payload.clawback)]
        + big_endian(payload.nonce as nat, 8)
        + big_endian(payload.deadline as nat, 8)
        + payload.network_passphrase
}

/// The digest that is signed: the hash of the two hashes, domain first.
pub open spec fn payload_digest(factory_address: Seq<u8>, payload: PayloadView) -> [u8; 32] {
    sha256_digest(
        sha256_digest(domain_input(factory_address))@ + sha256_digest(struct_input(payload))@,
    )
}

// ─── Encoding ────────────────────────────────────────────────────────

/// Encodes a `bool` as a single byte, 0 or 1.
pub fn encode_bool(val: bool) -> (byte: u8)
    ensures
        byte == bool_byte(val),
{
    if val {
        1
    } else {
        0
    }
}

proof fn lemma_big_endian_len(value: nat, len: nat)
    ensures
        big_endian(value, len).len() == len,
    decreases len,
{
    if len > 0 {
        lemma_big_endian_len(value / 256, (len - 1) as nat);
    }
}

/// Encodes an `i128` as 16 big-endian bytes.
pub fn encode_i128(val: i128) -> (bytes: [u8; 16])
    ensures
        bytes@ == big_endian(twos_complement(val), 16),
{
    let bits: u128 = if val >= 0 {
        val as u128
    } else {
        (val - i128::MIN) as u128 + 0x8000_0000_0000_0000_0000_0000_0000_0000u128
    };
    let mut bytes: [u8; 16] = [0u8; 16];
    let mut rest: u128 = bits;
    let mut i: usize = 16;
    while i > 0
        invariant
            i <= 16,
            big_endian(bits as nat, 16) == big_endian(rest as nat, i as nat) + bytes@.skip(
                i as int,
            ),
        decreases i,
    {
        let ghost before = bytes@;
        i -= 1;
        bytes[i] = (rest % 256) as u8;
        proof {
            assert(bytes@.skip(i as int) =~= seq![(rest % 256) as u8] + before.skip(i + 1));
            assert(big_endian(rest as nat, (i + 1) as nat) == big_endian(
                (rest / 256) as nat,
                i as nat,
            ).push((rest % 256) as u8));
            assert(big_endian(rest as nat, (i + 1) as nat) + before.skip(i + 1) =~= big_endian(
                (rest / 256) as nat,
                i as nat,
            ) + bytes@.skip(i as int));
        }
        rest = rest / 256;
    }
    assert(big_endian(rest as nat, 0) + bytes@.skip(0) =~= bytes@);
    bytes
}

/// Encodes a `u64` as 8 big-endian bytes.
pub fn encode_u64(val: u64) -> (bytes: [u8; 8])
    ensures
        bytes@ == big_endian(val as nat, 8),
{
    let mut bytes: [u8; 8] = [0u8; 8];
    let mut rest: u64 = val;
    let mut i: usize = 8;
    while i > 0
        invariant
            i <= 8,
            big_endian(val as nat, 8) == big_endian(rest as nat, i as nat) + bytes@.skip(i as int),
        decreases i,
    {
        let ghost before = bytes@;
        i -= 1;
        bytes[i] = (rest % 256) as u8;
        proof {
            assert(bytes@.skip(i as int) =~= seq![(rest % 256) as u8] + before.skip(i + 1));
            assert(big_endian(rest as nat, (i + 1) as nat) == big_endian(
                (rest / 256) as nat,
                i as nat,
            ).push((rest % 256) as u8));
            assert(big_endian(rest as nat, (i + 1) as nat) + before.skip(i + 1) =~= big_endian(
                (rest / 256) as nat,
                i as nat,
            ) + bytes@.skip(i as int));
        }
        rest = rest / 256;
    }
    assert(big_endian(rest as nat, 0) + bytes@.skip(0) =~= bytes@);
    bytes
}

/// The bytes of the domain tag and the factory address.
pub fn encode_domain(factory_address: &[u8; 32]) -> (bytes: Vec<u8>)
    ensures
        bytes@ == domain_input(factory_address@),
{
    let mut bytes: Vec<u8> = vec![
        67u8, 111u8, 110u8, 100u8, 117u8, 105u8, 116u8, 32u8,
        83u8, 116u8, 114u8, 101u8, 97u8, 109u8, 32u8,
        67u8, 114u8, 101u8, 97u8, 116u8, 105u8, 111u8, 110u8, 32u8,
        118u8, 49u8,
    ];
    assert(bytes@ =~= domain_tag());
    bytes.extend_from_slice(factory_address);
    bytes
}

/// The bytes of the fields of a payload.
pub fn encode_payload(payload: &SignaturePayload) -> (bytes: Vec<u8>)
    ensures
        bytes@ == struct_input(payload@),
{
    let mut bytes: Vec<u8> = Vec::new();
    bytes.extend_from_slice(&payload.sender);
    bytes.extend_from_slice(&payload.recipient);
    bytes.extend_from_slice(&payload.token);
    bytes.extend_from_slice(&encode_i128(payload.deposit));
    bytes.extend_from_slice(&encode_i128(payload.rate_per_sec));
    bytes.extend_from_slice(&encode_u64(payload.start_time));
    bytes.extend_from_slice(&encode_u64(payload.end_time));
    bytes.push(encode_bool(payload.clawback));
    bytes.extend_from_slice(&encode_u64(payload.nonce));
    bytes.extend_from_slice(&encode_u64(payload.deadline));
    bytes.extend_from_slice(payload.network_passphrase.as_slice());
    assert(bytes@ =~= struct_input(payload@));
    bytes
}

/// The bytes of the two hashes that the digest is made from.
pub fn encode_hashes(domain_hash: &[u8; 32], struct_hash: &[u8; 32]) -> (bytes: Vec<u8>)
    ensures
        bytes@ == domain_hash@ + struct_hash@,
{
    let mut bytes: Vec<u8> = Vec::new();
    bytes.extend_from_slice(domain_hash);
    bytes.extend_from_slice(struct_hash);
    assert(bytes@ =~= domain_hash@ + struct_hash@);
    bytes
}

/// The length of the fields of a payload before its network passphrase.
pub const FIXED_FIELDS_LEN: u32 = 161;

/// `payload` with its addresses of full length.
pub open spec fn payload_wf(payload: PayloadView) -> bool {
    payload.sender.len() == 32 && payload.recipient.len() == 32 && payload.token.len() == 32
}

proof fn lemma_struct_input_len(payload: PayloadView)
    requires
        payload_wf(payload),
    ensures
        struct_input(payload).len() == FIXED_FIELDS_LEN + payload.network_passphrase.len(),
{
    lemma_big_endian_len(twos_complement(payload.deposit), 16);
    lemma_big_endian_len(twos_complement(payload.rate_per_sec), 16);
    lemma_big_endian_len(payload.start_time as nat, 8);
    lemma_big_endian_len(payload.end_time as nat, 8);
    lemma_big_endian_len(payload.nonce as nat, 8);
    lemma_big_endian_len(payload.deadline as nat, 8);
}

// ─── Hashing and verifying ───────────────────────────────────────────

/// The domain-separated digest of a payload, for the factory at
/// `factory_address`.
///
/// The host hashes at most `u32::MAX` bytes at a time.
pub fn hash_payload(
    env: &soroban_sdk::Env,
    factory_address: &[u8; 32],
    payload: &SignaturePayload,
) -> (digest: [u8; 32])
    requires
        FIXED_FIELDS_LEN + payload@.network_passphrase.len() <= u32::MAX,
    ensures
        digest == payload_digest(factory_address@, payload@),
{
    let domain_hash: [u8; 32] = host::sha256(env, &encode_domain(factory_address));
    proof {
        lemma_struct_input_len(payload@);
    }
    let struct_hash: [u8; 32] = host::sha256(env, &encode_payload(payload));
    host::sha256(env, &encode_hashes(&domain_hash, &struct_hash))
}

/// Verifies an ed25519 signature over the digest of a payload. The host aborts
/// the call where the signature is invalid.
pub fn verify_signature(
    env: &soroban_sdk::Env,
    factory_address: &[u8; 32],
    payload: &SignaturePayload,
    public_key: &[u8; 32],
    signature: &[u8; 64],
) -> (r: Result<(), Error>)
    requires
        FIXED_FIELDS_LEN + payload@.network_passphrase.len() <= u32::MAX,
        ed25519_valid(
            public_key@,
            payload_digest(factory_address@, payload@)@,
            signature@,
        ),
    ensures
        r == Ok::<(), Error>(()),
{
    let digest: [u8; 32] = hash_payload(env, factory_address, payload);
    host::ed25519_verify(env, public_key, &digest, signature);
    Ok(())
}

/// As `verify_signature`, for any signature: refuses an invalid one without
/// aborting the call.
pub fn try_verify_signature(
    env: &soroban_sdk::Env,
    factory_address: &[u8; 32],
    payload: &SignaturePayload,
    public_key: &[u8; 32],
    signature: &[u8; 64],
) -> (r: Result<(), Error>)
    requires
        FIXED_FIELDS_LEN + payload@.network_passphrase.len() <= u32::MAX,
    ensures
        r == if ed25519_valid(
            public_key@,
            payload_digest(factory_address@, payload@)@,
            signature@,
        ) {
            Ok(())
        } else {
            Err(Error::InvalidSignature)
        },
{
    let digest: [u8; 32] = hash_payload(env, factory_address, payload);
    if host::ed25519_check(public_key, &digest, signature) {
        verify_signature(env, factory_address, payload, public_key, signature)
    } else {
        Err(Error::InvalidSignature)
    }
}

// ─── What the digest binds ───────────────────────────────────────────

proof fn lemma_concat_injective(a1: Seq<u8>, b1: Seq<u8>, a2: Seq<u8>, b2: Seq<u8>)
    requires
        a1 + b1 == a2 + b2,
        a1.len() == a2.len() || b1.len() == b2.len(),
    ensures
        a1 == a2,
        b1 == b2,
{
    assert((a1 + b1).len() == (a2 + b2).len());
    assert(a1 =~= (a1 + b1).take(a1.len() as int));
    assert(a2 =~= (a2 + b2).take(a2.len() as int));
    assert(b1 =~= (a1 + b1).skip(a1.len() as int));
    assert(b2 =~= (a2 + b2).skip(a2.len() as int));
}

proof fn lemma_big_endian_injective(v: nat, w: nat, len: nat)
    requires
        v < pow(256, len),
        w < pow(256, len),
        big_endian(v, len) == big_endian(w, len),
    ensures
        v == w,
    decreases len,
{
    reveal(pow);
    if len > 0 {
        let shorter = (len - 1) as nat;
        let bv = big_endian(v, len);
        let bw = big_endian(w, len);
        assert(big_endian(v / 256, shorter) =~= bv.drop_last());
        assert(big_endian(w / 256, shorter) =~= bw.drop_last());
        assert(bv.last() == bw.last());
        lemma_big_endian_injective(v / 256, w / 256, shorter);
    }
}

proof fn lemma_word_bounds()
    ensures
        pow(256, 8) == 0x1_0000_0000_0000_0000,
        pow(256, 16) == 0x1_0000_0000_0000_0000_0000_0000_0000_0000,
{
    reveal(pow);
    reveal_with_fuel(pow, 9);
    vstd::arithmetic::power::lemma_pow_adds(256, 8, 8);
}

/// No two payloads have the same encoding: each parameter, the nonce, the
/// deadline and the network passphrase can be read back from it.
pub proof fn struct_input_is_injective(p: PayloadView, q: PayloadView)
    requires
        payload_wf(p),
        payload_wf(q),
        struct_input(p) == struct_input(q),
    ensures
        p == q,
{
    lemma_struct_input_len(p);
    lemma_struct_input_len(q);
    lemma_word_bounds();
    let (pd, qd) = (
        big_endian(twos_complement(p.deposit), 16),
        big_endian(twos_complement(q.deposit), 16),
    );
    let (pr, qr) = (
        big_endian(twos_complement(p.rate_per_sec), 16),
        big_endian(twos_complement(q.rate_per_sec), 16),
    );
    let (ps, qs) = (big_endian(p.start_time as nat, 8), big_endian(q.start_time as nat, 8));
    let (pe, qe) = (big_endian(p.end_time as nat, 8), big_endian(q.end_time as nat, 8));
    let (pc, qc) = (seq![bool_byte(p.clawback)], seq![bool_byte(q.clawback)]);
    let (pn, qn) = (big_endian(p.nonce as nat, 8), big_endian(q.nonce as nat, 8));
    let (pl, ql) = (big_endian(p.deadline as nat, 8), big_endian(q.deadline as nat, 8));
    lemma_big_endian_len(twos_complement(p.deposit), 16);
    lemma_big_endian_len(twos_complement(q.deposit), 16);
    lemma_big_endian_len(twos_complement(p.rate_per_sec), 16);
    lemma_big_endian_len(twos_complement(q.rate_per_sec), 16);
    lemma_big_endian_len(p.start_time as nat, 8);
    lemma_big_endian_len(q.start_time as nat, 8);
    lemma_big_endian_len(p.end_time as nat, 8);
    lemma_big_endian_len(q.end_time as nat, 8);
    lemma_big_endian_len(p.nonce as nat, 8);
    lemma_big_endian_len(q.nonce as nat, 8);
    lemma_big_endian_len(p.deadline as nat, 8);
    lemma_big_endian_len(q.deadline as nat, 8);

    let (p2, q2) = (p.sender + p.recipient, q.sender + q.recipient);
    let (p3, q3) = (p2 + p.token, q2 + q.token);
    let (p4, q4) = (p3 + pd, q3 + qd);
    let (p5, q5) = (p4 + pr, q4 + qr);
    let (p6, q6) = (p5 + ps, q5 + qs);
    let (p7, q7) = (p6 + pe, q6 + qe);
    let (p8, q8) = (p7 + pc, q7 + qc);
    let (p9, q9) = (p8 + pn, q8 + qn);
    let (p10, q10) = (p9 + pl, q9 + ql);
    lemma_concat_injective(p10, p.network_passphrase, q10, q.network_passphrase);
    lemma_concat_injective(p9, pl, q9, ql);
    lemma_concat_injective(p8, pn, q8, qn);
    lemma_concat_injective(p7, pc, q7, qc);
    lemma_concat_injective(p6, pe, q6, qe);
    lemma_concat_injective(p5, ps, q5, qs);
    lemma_concat_injective(p4, pr, q4, qr);
    lemma_concat_injective(p3, pd, q3, qd);
    lemma_concat_injective(p2, p.token, q2, q.token);
    lemma_concat_injective(p.sender, p.recipient, q.sender, q.recipient);

    lemma_big_endian_injective(twos_complement(p.deposit), twos_complement(q.deposit), 16);
    lemma_big_endian_injective(
        twos_complement(p.rate_per_sec),
        twos_complement(q.rate_per_sec),
        16,
    );
    lemma_big_endian_injective(p.start_time as nat, q.start_time as nat, 8);
    lemma_big_endian_injective(p.end_time as nat, q.end_time as nat, 8);
    lemma_big_endian_injective(p.nonce as nat, q.nonce as nat, 8);
    lemma_big_endian_injective(p.deadline as nat, q.deadline as nat, 8);
    assert(pc[0] == qc[0]);
}

/// Two different byte strings with the same SHA-256 digest.
pub open spec fn is_collision(a: Seq<u8>, b: Seq<u8>) -> bool {
    a != b && sha256_digest(a)@ == sha256_digest(b)@
}

/// A digest binds the factory and every field of the payload: where two
/// different requests, or the same one at two factories, share a digest, what is
/// hashed for them at one of the three places is a collision of SHA-256.
pub proof fn digest_binds_request(f: Seq<u8>, p: PayloadView, g: Seq<u8>, q: PayloadView)
    requires
        f.len() == 32,
        g.len() == 32,
        payload_wf(p),
        payload_wf(q),
        payload_digest(f, p)@ == payload_digest(g, q)@,
        f != g || p != q,
    ensures
        ({
            ||| is_collision(domain_input(f), domain_input(g))
            ||| is_collision(struct_input(p), struct_input(q))
            ||| is_collision(
                sha256_digest(domain_input(f))@ + sha256_digest(struct_input(p))@,
                sha256_digest(domain_input(g))@ + sha256_digest(struct_input(q))@,
            )
        }),
{
    let (df, dg) = (sha256_digest(domain_input(f))@, sha256_digest(domain_input(g))@);
    let (sp, sq) = (sha256_digest(struct_input(p))@, sha256_digest(struct_input(q))@);
    if df + sp != dg + sq {
        assert(is_collision(df + sp, dg + sq));
    } else {
        lemma_concat_injective(df, sp, dg, sq);
        if f != g {
            if domain_input(f) == domain_input(g) {
                lemma_concat_injective(domain_tag(), f, domain_tag(), g);
            }
            assert(is_collision(domain_input(f), domain_input(g)));
        } else {
            if struct_input(p) == struct_input(q) {
                struct_input_is_injective(p, q);
            }
            assert(is_collision(struct_input(p), struct_input(q)));
        }
    }
}

// ─── Where the fields lie ────────────────────────────────────────────

/// The digits of a number, the most significant first.
proof fn lemma_big_endian_digits(value: nat, len: nat, i: int)
    requires
        0 <= i < len,
    ensures
        big_endian(value, len).len() == len,
        big_endian(value, len)[i] == (value as int / pow(256, (len - 1 - i) as nat)) % 256,
    decreases len,
{
    lemma_big_endian_len(value, len);
    lemma_big_endian_len(value / 256, (len - 1) as nat);
    let k = (len - 1 - i) as nat;
    if k == 0 {
        vstd::arithmetic::power::lemma_pow0(256);
        assert(value as int / 1 == value as int);
    } else {
        lemma_big_endian_digits(value / 256, (len - 1) as nat, i);
        let shorter = (k - 1) as nat;
        vstd::arithmetic::power::lemma_pow_positive(256, shorter);
        reveal(pow);
        assert(pow(256, k) == 256 * pow(256, shorter));
        vstd::arithmetic::div_mod::lemma_div_denominator(value as int, 256, pow(256, shorter));
        assert((value / 256) as int / pow(256, shorter) == value as int / pow(256, k));
    }
}

/// Below `256^16`, a number and its two's complement have the same digits.
proof fn lemma_twos_complement_digits(value: i128, k: nat)
    requires
        k < 16,
    ensures
        (twos_complement(value) as int / pow(256, k)) % 256 == (value as int / pow(256, k)) % 256,
{
    if value < 0 {
        let d = pow(256, k);
        let m = pow(256, (16 - k) as nat);
        let l = pow(256, (15 - k) as nat);
        lemma_word_bounds();
        vstd::arithmetic::power::lemma_pow_positive(256, k);
        vstd::arithmetic::power::lemma_pow_adds(256, (16 - k) as nat, k);
        vstd::arithmetic::power::lemma_pow_adds(256, 1, (15 - k) as nat);
        vstd::arithmetic::power::lemma_pow1(256);
        assert(m == 256 * l);
        assert(twos_complement(value) as int == value + m * d);
        vstd::arithmetic::div_mod::lemma_hoist_over_denominator(value as int, m, d as nat);
        assert(twos_complement(value) as int / d == value as int / d + m);
        vstd::arithmetic::div_mod::lemma_mod_multiples_vanish(l, value as int / d, 256);
    }
}

/// The encodings of single values: digits to the base 256, the most significant
/// first, those of a negative number in two's complement; and 1 for true.
pub proof fn encodings_are_digits(word: u64, number: i128, val: bool, i: int, k: int)
    requires
        0 <= i < 8,
        0 <= k < 16,
    ensures
        big_endian(word as nat, 8).len() == 8,
        big_endian(word as nat, 8)[i] == (word as int / pow(256, (7 - i) as nat)) % 256,
        big_endian(twos_complement(number), 16).len() == 16,
        big_endian(twos_complement(number), 16)[k] == (number as int / pow(256, (15 - k) as nat))
            % 256,
        bool_byte(val) == 1 <==> val,
        bool_byte(val) == 0 <==> !val,
{
    lemma_big_endian_digits(word as nat, 8, i);
    lemma_big_endian_digits(twos_complement(number), 16, k);
    lemma_twos_complement_digits(number, (15 - k) as nat);
}

/// What `bytes` come to, read as one number with the most significant byte first.
pub open spec fn read_number(bytes: Seq<u8>) -> int
    decreases bytes.len(),
{
    if bytes.len() == 0 {
        0
    } else {
        256 * read_number(bytes.drop_last()) + bytes.last()
    }
}

proof fn lemma_big_endian_reads_back(value: nat, len: nat)
    requires
        value < pow(256, len),
    ensures
        read_number(big_endian(value, len)) == value,
    decreases len,
{
    reveal(pow);
    if len > 0 {
        let shorter = (len - 1) as nat;
        let bytes = big_endian(value, len);
        assert(bytes.drop_last() =~= big_endian(value / 256, shorter));
        lemma_big_endian_reads_back(value / 256, shorter);
    }
}

/// The bytes that are hashed of a payload hold each field at its place and in its
/// own byte order: the three addresses, the two amounts, the two times, the
/// clawback byte, the nonce, the deadline and the network passphrase.
pub proof fn fields_lie_at_their_places(payload: SignaturePayload)
    ensures
        ({
            let bytes = struct_input(payload@);
            &&& bytes.len() == 161 + payload.network_passphrase@.len()
            &&& bytes.subrange(0, 32) == payload.sender@
            &&& bytes.subrange(32, 64) == payload.recipient@
            &&& bytes.subrange(64, 96) == payload.token@
            &&& read_number(bytes.subrange(96, 112)) == if payload.deposit >= 0 {
                payload.deposit as int
            } else {
                payload.deposit + pow(2, 128)
            }
            &&& read_number(bytes.subrange(112, 128)) == if payload.rate_per_sec >= 0 {
                payload.rate_per_sec as int
            } else {
                payload.rate_per_sec + pow(2, 128)
            }
            &&& read_number(bytes.subrange(128, 136)) == payload.start_time
            &&& read_number(bytes.subrange(136, 144)) == payload.end_time
            &&& bytes[144] == if payload.clawback {
                1u8
            } else {
                0u8
            }
            &&& read_number(bytes.subrange(145, 153)) == payload.nonce
            &&& read_number(bytes.subrange(153, 161)) == payload.deadline
            &&& bytes.skip(161) == payload.network_passphrase@
        }),
{
    let p = payload@;
    let bytes = struct_input(p);
    lemma_struct_input_len(p);
    lemma_word_bounds();
    lemma_bits_of_a_number();
    let deposit = big_endian(twos_complement(p.deposit), 16);
    let rate = big_endian(twos_complement(p.rate_per_sec), 16);
    let start = big_endian(p.start_time as nat, 8);
    let end = big_endian(p.end_time as nat, 8);
    let nonce = big_endian(p.nonce as nat, 8);
    let deadline = big_endian(p.deadline as nat, 8);
    lemma_big_endian_len(twos_complement(p.deposit), 16);
    lemma_big_endian_len(twos_complement(p.rate_per_sec), 16);
    lemma_big_endian_len(p.start_time as nat, 8);
    lemma_big_endian_len(p.end_time as nat, 8);
    lemma_big_endian_len(p.nonce as nat, 8);
    lemma_big_endian_len(p.deadline as nat, 8);
    lemma_big_endian_reads_back(twos_complement(p.deposit), 16);
    lemma_big_endian_reads_back(twos_complement(p.rate_per_sec), 16);
    lemma_big_endian_reads_back(p.start_time as nat, 8);
    lemma_big_endian_reads_back(p.end_time as nat, 8);
    lemma_big_endian_reads_back(p.nonce as nat, 8);
    lemma_big_endian_reads_back(p.deadline as nat, 8);
    assert(bytes.subrange(0, 32) =~= payload.sender@);
    assert(bytes.subrange(32, 64) =~= payload.recipient@);
    assert(bytes.subrange(64, 96) =~= payload.token@);
    assert(bytes.subrange(96, 112) =~= deposit);
    assert(bytes.subrange(112, 128) =~= rate);
    assert(bytes.subrange(128, 136) =~= start);
    assert(bytes.subrange(136, 144) =~= end);
    assert(bytes.subrange(145, 153) =~= nonce);
    assert(bytes.subrange(153, 161) =~= deadline);
    assert(bytes.skip(161) =~= payload.network_passphrase@);
}

proof fn lemma_bits_of_a_number()
    ensures
        pow(2, 128) == 0x1_0000_0000_0000_0000_0000_0000_0000_0000,
{
    reveal(pow);
    reveal_with_fuel(pow, 17);
    assert(pow(2, 16) == 0x1_0000);
    vstd::arithmetic::power::lemma_pow_adds(2, 16, 16);
    assert(pow(2, 32) == 0x1_0000_0000);
    vstd::arithmetic::power::lemma_pow_adds(2, 32, 32);
    assert(pow(2, 64) == 0x1_0000_0000_0000_0000);
    vstd::arithmetic::power::lemma_pow_adds(2, 64, 64);
}

/// The bytes that are hashed of the place hold the tag in ASCII and then the
/// factory address, as it is.
pub proof fn domain_is_the_tag_and_the_factory(factory_address: [u8; 32], i: int)
    ensures
        domain_input(factory_address@).len() == 58,
        0 <= i < 26 ==> domain_input(factory_address@)[i] as char
            == "Conduit Stream Creation v1"@[i],
        domain_input(factory_address@).skip(26) == factory_address@,
{
    reveal_strlit("Conduit Stream Creation v1");
    assert(domain_tag().len() == 26);
    assert(domain_input(factory_address@).skip(26) =~= factory_address@);
}

/// What is signed is the SHA-256 digest of two SHA-256 digests, that of the place
/// and then that of the payload.
pub proof fn digest_is_the_hash_of_the_hashes(
    factory_address: [u8; 32],
    payload: SignaturePayload,
    hashes: Seq<u8>,
)
    requires
        hashes.len() == 64,
        hashes.take(32) == sha256_digest(domain_input(factory_address@))@,
        hashes.skip(32) == sha256_digest(struct_input(payload@))@,
    ensures
        payload_digest(factory_address@, payload@) == sha256_digest(hashes),
{
    assert(hashes =~= hashes.take(32) + hashes.skip(32));
}

} // verus!
