use arb_revm::bytes::{bytes_eq, from_be_bytes, strip_leading_zeros, to_be_bytes};
use arb_revm::compiled_frame::eligibility::IneligibleReason;
use arb_revm::compiled_frame::registry::CompiledFrameError;
use arb_revm::counters::Counters;
use arb_revm::primitives::{Address, Bytes, B256};
use arb_revm::rlp::{rlp_encode_bytes, rlp_encode_list, rlp_write_length};
use arb_revm::text::{append_decimal, append_hex, same_text};
use arb_revm::words::U256;

#[test]
fn leading_zeros_are_stripped() {
    assert_eq!(strip_leading_zeros(&[]), &[] as &[u8]);
    assert_eq!(strip_leading_zeros(&[0, 0]), &[] as &[u8]);
    assert_eq!(strip_leading_zeros(&[0, 1, 0]), &[1, 0]);
    assert_eq!(strip_leading_zeros(&[5, 0]), &[5, 0]);
}

#[test]
fn numbers_round_trip_through_bytes() {
    assert_eq!(to_be_bytes(0x0102, 4), vec![0, 0, 1, 2]);
    assert_eq!(from_be_bytes(&[0, 0, 1, 2]), 0x0102);
    assert_eq!(from_be_bytes(&[]), 0);
    assert_eq!(from_be_bytes(&[0xff; 8]), u64::MAX);
    assert!(bytes_eq(&[1, 2], &[1, 2]));
    assert!(!bytes_eq(&[1, 2], &[1, 3]));
    assert!(!bytes_eq(&[1, 2], &[1]));
}

#[test]
fn rlp_strings_have_exact_encodings() {
    assert_eq!(rlp_encode_bytes(&[]), vec![0x80]);
    assert_eq!(rlp_encode_bytes(&[0x7f]), vec![0x7f]);
    assert_eq!(rlp_encode_bytes(&[0x80]), vec![0x81, 0x80]);
    assert_eq!(rlp_encode_bytes(b"dog"), vec![0x83, b'd', b'o', b'g']);
    let long = [1u8; 56];
    let encoded = rlp_encode_bytes(&long);
    assert_eq!(&encoded[..2], &[0xb8, 56]);
    assert_eq!(&encoded[2..], &long);
    let longer = vec![1u8; 1024];
    assert_eq!(&rlp_encode_bytes(&longer)[..3], &[0xb9, 4, 0]);
}

#[test]
fn rlp_lists_have_exact_encodings() {
    let mut out = vec![0x02];
    rlp_encode_list(&mut out, &[b"cat", b"dog"]);
    assert_eq!(
        out,
        vec![0x02, 0xc8, 0x83, b'c', b'a', b't', 0x83, b'd', b'o', b'g']
    );
    let mut out = Vec::new();
    rlp_encode_list(&mut out, &[]);
    assert_eq!(out, vec![0xc0]);
    let mut out = Vec::new();
    rlp_write_length(&mut out, 55, 0xc0);
    rlp_write_length(&mut out, 56, 0xc0);
    assert_eq!(out, vec![0xf7, 0xf8, 56]);
}

#[test]
fn rlp_encodings_tell_lists_apart() {
    let mut first = Vec::new();
    rlp_encode_list(&mut first, &[&[1, 2], &[3]]);
    let mut second = Vec::new();
    rlp_encode_list(&mut second, &[&[1], &[2, 3]]);
    assert_ne!(first, second);
}

#[test]
fn words_hold_256_bits() {
    let mut bytes = [0u8; 32];
    bytes[0] = 1;
    bytes[31] = 2;
    let word = U256::from_be_slice(&bytes);
    assert_eq!(word.l3, 1 << 56);
    assert_eq!(word.l0, 2);
    assert_eq!(word.to_be_vec(), bytes);
    assert_eq!(word.saturating_u64(), u64::MAX);
    assert_eq!(U256::from_u64(9).saturating_u64(), 9);
    assert!(U256::zero().is_zero() && !U256::max().is_zero());
}

#[test]
fn addresses_and_hashes_keep_their_bytes() {
    let mut bytes = [0u8; 20];
    for (i, byte) in bytes.iter_mut().enumerate() {
        *byte = i as u8 + 1;
    }
    assert_eq!(Address::from_array(bytes).to_vec(), bytes);
    assert_eq!(Address::zero().to_vec(), [0; 20]);
    let mut bytes = [0u8; 32];
    for (i, byte) in bytes.iter_mut().enumerate() {
        *byte = 255 - i as u8;
    }
    assert_eq!(B256::from_array(bytes).to_vec(), bytes);
    assert_eq!(B256::zero().to_vec(), [0; 32]);
}

#[test]
fn shared_bytes_compare_by_contents() {
    let bytes = Bytes::from_vec(vec![1, 2]);
    assert!(bytes == bytes.clone());
    assert!(bytes == Bytes::from_vec(vec![1, 2]));
    assert!(bytes != Bytes::from_vec(vec![1]));
    assert_eq!(bytes.len(), 2);
    assert!(Bytes::new().is_empty());
}

#[test]
fn text_is_exact() {
    let mut text = String::from("x");
    append_hex(&mut text, &[0x00, 0xaf, 0x1c]);
    assert_eq!(text, "x00af1c");
    for (n, expected) in [(0u8, "0"), (7, "7"), (64, "64"), (100, "100"), (255, "255")] {
        let mut text = String::new();
        append_decimal(&mut text, n);
        assert_eq!(text, expected);
    }
    assert!(same_text("ring", "ring"));
    assert!(!same_text("ring", "rink"));
    assert!(!same_text("ring", "rings"));
}

#[test]
fn error_texts_are_exact() {
    for (error, text) in [
        (
            CompiledFrameError::Ineligible(IneligibleReason::Empty),
            "bytecode ineligible for compilation: Empty",
        ),
        (
            CompiledFrameError::Ineligible(IneligibleReason::EofOrStylusPrefix),
            "bytecode ineligible for compilation: EofOrStylusPrefix",
        ),
        (
            CompiledFrameError::Ineligible(IneligibleReason::InstructionOverride(64)),
            "bytecode ineligible for compilation: InstructionOverride(64)",
        ),
        (
            CompiledFrameError::Compiler("no backend".to_string()),
            "revmc compiler error: no backend",
        ),
    ] {
        assert_eq!(error.message(), text);
    }
}

#[test]
fn counters_are_kept_apart() {
    let one = Address::from_array([1; 20]);
    let two = Address::from_array([2; 20]);
    let mut counters = Counters::new();
    assert_eq!(counters.get(one), 0);
    counters.set(one, 5);
    counters.set(two, 6);
    counters.set(one, 7);
    assert_eq!(counters.get(one), 7);
    assert_eq!(counters.get(two), 6);
}
