use num_bigint::BigUint;
use sha3::{Digest, Keccak256};
use vstd::arithmetic::power::{lemma_pow_adds, lemma_pow_positive, pow};
use vstd::arithmetic::power2::{lemma2_to64, pow2};
use vstd::prelude::*;

verus! {

/// Number of bytes in a Keccak-256 digest.
pub const DIGEST_LEN: usize = 32;

/// Mask applied to the most significant digest byte: keeps its two low bits,
/// so that the digest fits in 250 bits.
pub const TOP_BYTE_MASK: u8 = 3;

#[verifier::external_type_specification]
#[verifier::external_body]
pub struct ExBigUint(BigUint);

/// The Keccak-256 digest (Keccak padding as used by Ethereum, not SHA3-256)
/// of a byte string.
pub uninterp spec fn keccak256_of(data: Seq<u8>) -> Seq<u8>;

/// The number that a `BigUint` holds.
pub uninterp spec fn biguint_value(n: BigUint) -> nat;

/// `256^n`.
pub open spec fn pow256(n: nat) -> nat
    decreases n,
{
    if n == 0 {
        1
    } else {
        256 * pow256((n - 1) as nat)
    }
}

/// The number whose big-endian base-256 digits are `bytes`.
pub open spec fn be_value(bytes: Seq<u8>) -> nat
    decreases bytes.len(),
{
    if bytes.len() == 0 {
        0
    } else {
        bytes[0] as nat * pow256((bytes.len() - 1) as nat) + be_value(bytes.subrange(1, bytes.len() as int))
    }
}

/// A digest with its most significant byte masked by `TOP_BYTE_MASK`; the
/// other bytes are kept.
pub open spec fn masked_digest(digest: Seq<u8>) -> Seq<u8> {
    if digest.len() == 0 {
        digest
    } else {
        digest.update(0, digest[0] & TOP_BYTE_MASK)
    }
}

/// The value of `starknet_keccak` on `data`.
pub open spec fn starknet_keccak_value(data: Seq<u8>) -> nat {
    be_value(masked_digest(keccak256_of(data)))
}

/// Relies on sha3's `Keccak256` (`new`, `update`, `finalize`): the 32-byte
/// Keccak-256 digest of `data`, a function of the bytes alone.
#[verifier::external_body]
fn keccak256(data: &[u8]) -> (r: Vec<u8>)
    ensures
        r@ == keccak256_of(data@),
        r@.len() == DIGEST_LEN,
{
    let mut hasher = Keccak256::new();
    hasher.update(data);
    hasher.finalize().to_vec()
}

/// Relies on `BigUint::from_bytes_be`: the number whose big-endian bytes are
/// `bytes` (zero for no bytes).
#[verifier::external_body]
fn biguint_from_bytes_be(bytes: &[u8]) -> (r: BigUint)
    ensures
        biguint_value(r) == be_value(bytes@),
{
    BigUint::from_bytes_be(bytes)
}

proof fn lemma_be_value_bound(bytes: Seq<u8>)
    ensures
        be_value(bytes) < pow256(bytes.len()),
    decreases bytes.len(),
{
    if bytes.len() > 0 {
        let n = (bytes.len() - 1) as nat;
        let rest = bytes.subrange(1, bytes.len() as int);
        lemma_be_value_bound(rest);
        assert(bytes[0] as nat * pow256(n) + be_value(rest) < 256 * pow256(n)) by (nonlinear_arith)
            requires
                bytes[0] <= 255,
                be_value(rest) < pow256(n),
        ;
    }
}

proof fn lemma_pow2_bytes(k: nat)
    ensures
        pow2(8 * k + 2) == 4 * pow256(k),
    decreases k,
{
    lemma2_to64();
    if k > 0 {
        let j = (k - 1) as nat;
        lemma_pow2_bytes(j);
        lemma_pow_adds(2, 8 * j + 2, 8);
        assert(8 * k + 2 == (8 * j + 2) + 8) by (nonlinear_arith)
            requires
                k == j + 1,
        ;
        lemma_pow_positive(2, 8);
        lemma_pow_positive(2, 8 * j + 2);
        assert(pow(2, 8) == 256) by {
            assert(pow2(8) == 256);
        }
        assert(pow(2, 8 * j + 2) == 4 * pow256(j));
        assert(pow(2, 8 * k + 2) == pow(2, 8 * j + 2) * 256);
        assert(pow256(k) == 256 * pow256(j));
        assert(pow(2, 8 * j + 2) * 256 == 4 * (256 * pow256(j))) by (nonlinear_arith)
            requires
                pow(2, 8 * j + 2) == 4 * pow256(j),
        ;
    }
}

/// Masking the top byte of a 32-byte digest leaves a number below `2^250`.
pub proof fn lemma_masked_digest_fits_field(digest: Seq<u8>)
    requires
        digest.len() == DIGEST_LEN,
    ensures
        be_value(masked_digest(digest)) < pow2(250),
{
    let m = masked_digest(digest);
    let rest = m.subrange(1, 32);
    let top = digest[0];
    assert(top & 3 <= 3) by (bit_vector);
    lemma_be_value_bound(rest);
    lemma_pow2_bytes(31);
    assert(m[0] as nat * pow256(31) + be_value(rest) < 4 * pow256(31)) by (nonlinear_arith)
        requires
            m[0] <= 3,
            be_value(rest) < pow256(31),
    ;
}

/// `starknet_keccak` is a function of its input: equal inputs give equal
/// values, and every value is below `2^250`.
pub proof fn lemma_starknet_keccak_deterministic(a: Seq<u8>, b: Seq<u8>)
    requires
        a == b,
        keccak256_of(a).len() == DIGEST_LEN,
    ensures
        starknet_keccak_value(a) == starknet_keccak_value(b),
        starknet_keccak_value(a) < pow2(250),
{
    lemma_masked_digest_fits_field(keccak256_of(a));
}

/// Masks the most significant byte of `digest` with `TOP_BYTE_MASK`, keeping
/// the other bytes. On a 32-byte digest the result is below `2^250`.
pub fn mask_to_field(digest: Vec<u8>) -> (r: Vec<u8>)
    ensures
        r@ == masked_digest(digest@),
        digest@.len() == DIGEST_LEN ==> be_value(r@) < pow2(250),
{
    let mut r = digest;
    if r.len() > 0 {
        let top = r[0] & TOP_BYTE_MASK;
        r.set(0, top);
    }
    proof {
        if digest@.len() == DIGEST_LEN {
            lemma_masked_digest_fits_field(digest@);
        }
    }
    r
}

/// A variant of Ethereum's Keccak-256 whose value fits in a StarkNet field
/// element: the digest with its top six bits cleared, read as a big-endian
/// number.
pub fn starknet_keccak(data: &[u8]) -> (r: BigUint)
    ensures
        biguint_value(r) == starknet_keccak_value(data@),
        biguint_value(r) < pow2(250),
{
    let digest = keccak256(data);
    let masked = mask_to_field(digest);
    biguint_from_bytes_be(masked.as_slice())
}

} // verus!
