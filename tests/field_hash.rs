use num_bigint::BigUint;
use starknet::field_hash::{mask_to_field, DIGEST_LEN, TOP_BYTE_MASK};
use starknet::starknet_keccak;

fn hex(s: &str) -> BigUint {
    BigUint::parse_bytes(s.as_bytes(), 16).unwrap()
}

#[test]
fn keccak_of_empty_input_is_pinned() {
    assert_eq!(
        starknet_keccak(b""),
        hex("01d2460186f7233c927e7db2dcc703c0e500b653ca82273b7bfad8045d85a470")
    );
}

#[test]
fn keccak_of_transfer_is_its_selector() {
    assert_eq!(
        starknet_keccak(b"transfer"),
        hex("83afd3f4caedc6eebf44246fe54e38c95e3179a5ec9ea81740eca5b482d12e")
    );
}

#[test]
fn keccak_is_deterministic_and_fits_250_bits() {
    let inputs: Vec<&[u8]> = vec![b"", b"a", b"transfer", b"balanceOf", &[0xff; 200]];
    for input in inputs {
        let first = starknet_keccak(input);
        let second = starknet_keccak(input);
        assert_eq!(first, second);
        assert!(first.bits() <= 250);
    }
}

#[test]
fn keccak_changes_when_one_byte_changes() {
    let base = b"contract_name".to_vec();
    let h = starknet_keccak(&base);
    for i in 0..base.len() {
        let mut changed = base.clone();
        changed[i] ^= 1;
        assert_ne!(starknet_keccak(&changed), h);
    }
}

#[test]
fn mask_clears_top_six_bits_only() {
    let digest = vec![0xffu8; DIGEST_LEN];
    let masked = mask_to_field(digest);
    assert_eq!(masked[0], TOP_BYTE_MASK);
    assert_eq!(masked[0], 3);
    assert!(masked[1..].iter().all(|b| *b == 0xff));
    assert_eq!(masked.len(), 32);
}

#[test]
fn mask_keeps_low_bits_of_top_byte() {
    let mut digest = vec![0u8; DIGEST_LEN];
    digest[0] = 0xc5;
    digest[31] = 0x70;
    let masked = mask_to_field(digest);
    assert_eq!(masked[0], 0x01);
    assert_eq!(masked[31], 0x70);
}

#[test]
fn mask_of_empty_digest_is_empty() {
    assert!(mask_to_field(Vec::new()).is_empty());
}

#[test]
fn keccak_of_largest_masked_value_is_below_bound() {
    let bound = BigUint::from(1u8) << 250usize;
    assert!(starknet_keccak(b"") < bound);
    assert!(starknet_keccak(b"balanceOf") < bound);
}
