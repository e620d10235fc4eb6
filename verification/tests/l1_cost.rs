use arb_revm::compression::{
    compress, BrotliStatus, Dictionary, HitCounter, PreparedPosterCompression, DEFAULT_WINDOW_SIZE,
};
use arb_revm::constants::{
    batch_poster_address, ARBITRUM_DEPOSIT_TX_TYPE, ARBITRUM_INTERNAL_TX_TYPE,
    ARBITRUM_RETRY_TX_TYPE, ARBITRUM_SUBMIT_RETRYABLE_TX_TYPE,
};
use arb_revm::l1_cost::{
    compressed_len_or_fallback, compute_poster_info, compute_poster_info_with_prepared,
    encode_tx_bytes, encode_tx_for_l1_cost, poster_info_from_compressed_len, poster_tx_bytes,
    tx_type_has_poster_costs, PosterInfo,
};
use arb_revm::primitives::{Address, Bytes, TxKind};
use arb_revm::transaction::{ArbTransaction, ArbTxTr, TxEnv};
use arb_revm::words::U256;

const PROTOCOL_TYPES: [u8; 4] = [
    ARBITRUM_INTERNAL_TX_TYPE,
    ARBITRUM_DEPOSIT_TX_TYPE,
    ARBITRUM_SUBMIT_RETRYABLE_TX_TYPE,
    ARBITRUM_RETRY_TX_TYPE,
];

/// A transaction type of a user's own, which offers borrowed bytes only.
struct Borrowed<'a>(&'a ArbTransaction<TxEnv>);

impl ArbTxTr for Borrowed<'_> {
    fn base_fields(&self) -> &TxEnv {
        &self.0.base
    }

    fn encoded_2718_bytes(&self) -> Option<&[u8]> {
        self.0.encoded_2718.as_ref().map(|bytes| bytes.as_slice())
    }
}

fn revm_word(word: U256) -> revm::primitives::U256 {
    revm::primitives::U256::from_limbs([word.l0, word.l1, word.l2, word.l3])
}

fn info_with(
    bytes: &[u8],
    price: U256,
    gas: U256,
    level: u32,
    prepared: Option<&PreparedPosterCompression>,
) -> PosterInfo {
    compute_poster_info_with_prepared(
        bytes,
        batch_poster_address(),
        price,
        gas,
        level,
        prepared,
        &mut HitCounter::new(),
    )
}

fn prepare(bytes: &[u8], level: u32) -> PreparedPosterCompression {
    PreparedPosterCompression::prepare(bytes, level, DEFAULT_WINDOW_SIZE, Dictionary::Empty).unwrap()
}

fn len_for(prepared: &PreparedPosterCompression, bytes: &[u8], level: u32) -> Option<u64> {
    prepared.compressed_len_for(bytes, level, &mut HitCounter::new())
}

fn decompress(stream: &[u8], len: usize) -> Vec<u8> {
    let heap = alloc_stdlib::StandardAlloc::default();
    let mut state = brotli::BrotliState::new(heap, heap, heap);
    let mut out = vec![0; len];
    let (mut left, mut from, mut room, mut made, mut total) = (stream.len(), 0, len, 0, 0);
    let result = brotli::BrotliDecompressStream(
        &mut left, &mut from, stream, &mut room, &mut made, &mut out, &mut total, &mut state,
    );
    assert!(matches!(result, brotli::BrotliResult::ResultSuccess));
    assert_eq!((left, made), (0, len));
    out
}

fn dictionary() -> Dictionary {
    Dictionary::StylusProgram(b"poster compression dictionary".to_vec())
}

#[test]
fn shared_canonical_bytes_retain_storage_and_survive_tx_replacement() {
    let encoded = Bytes::from_vec(vec![0x42; 512]);
    let original = encoded.clone();
    let mut tx = ArbTransaction::new(TxEnv::default()).with_encoded_2718(encoded);
    let shared = poster_tx_bytes(&tx);
    assert!(std::ptr::eq(shared.as_slice(), original.as_slice()));
    assert_eq!(shared.as_slice(), encode_tx_bytes(&tx));
    tx.encoded_2718 = Some(Bytes::from_vec(vec![0x99; 513]));
    let replacement = poster_tx_bytes(&tx);
    assert_eq!(replacement.as_slice(), encode_tx_bytes(&tx));
    assert!(!std::ptr::eq(&replacement.as_slice()[0], &shared.as_slice()[0]));
    drop(tx);
    assert_eq!(shared.as_slice(), &[0x42; 512]);
}

#[test]
fn shared_bytes_preserve_borrowed_custom_fallback_and_protocol_semantics() {
    for tx_type in [
        0,
        1,
        2,
        3,
        4,
        ARBITRUM_INTERNAL_TX_TYPE,
        ARBITRUM_DEPOSIT_TX_TYPE,
        ARBITRUM_SUBMIT_RETRYABLE_TX_TYPE,
        ARBITRUM_RETRY_TX_TYPE,
    ] {
        for encoded in [
            None,
            Some(Bytes::new()),
            Some(Bytes::from_vec(vec![0x21; 256])),
        ] {
            let mut tx = ArbTransaction::new(TxEnv::default());
            tx.base.tx_type = tx_type;
            tx.encoded_2718 = encoded;
            let old = encode_tx_bytes(&tx);
            let shared = poster_tx_bytes(&tx);
            let custom = Borrowed(&tx);
            assert!(custom.encoded_2718_shared().is_none());
            assert!(custom.retry_meta().is_none());
            assert!(custom.tx_hash().is_none());
            assert!(custom.prepared_poster_compression().is_none());
            let fallback = poster_tx_bytes(&custom);
            assert_eq!(shared.as_slice(), old);
            assert_eq!(fallback.as_slice(), old);
            if !tx_type_has_poster_costs(tx_type) {
                assert!(shared.is_empty());
            }
            for level in [0, 1, 4] {
                for (price, gas) in [
                    (U256::zero(), U256::zero()),
                    (U256::from_u64(11), U256::from_u64(3)),
                    (U256::max(), U256::from_u64(1)),
                ] {
                    for coinbase in [batch_poster_address(), Address::zero()] {
                        let expected = compute_poster_info(&old, coinbase, price, gas, level);
                        assert_eq!(
                            expected,
                            compute_poster_info(shared.as_slice(), coinbase, price, gas, level)
                        );
                        assert_eq!(
                            expected,
                            compute_poster_info(fallback.as_slice(), coinbase, price, gas, level)
                        );
                    }
                }
            }
        }
    }
}

#[test]
fn exact_preparation_matches_direct_compression_and_current_fees() {
    for level in [0, 1, 4] {
        let bytes = vec![42; 512];
        let prepared = prepare(&bytes, level);
        let direct = compress(&bytes, level, DEFAULT_WINDOW_SIZE, &Dictionary::Empty).unwrap();
        assert_eq!(
            len_for(&prepared, &bytes, level),
            Some(direct.len() as u64)
        );
        for (price, gas) in [
            (U256::from_u64(100), U256::from_u64(3)),
            (U256::from_u64(7), U256::from_u64(2)),
            (U256::max(), U256::from_u64(1)),
        ] {
            let info = info_with(&bytes, price, gas, level, Some(&prepared));
            assert_eq!(info.calldata_units, 16 * direct.len() as u64);
            assert_eq!(
                revm_word(info.poster_cost),
                revm_word(price).saturating_mul(revm::primitives::U256::from(info.calldata_units))
            );
            assert_eq!(
                info.poster_gas,
                u64::try_from(revm_word(info.poster_cost) / revm_word(gas)).unwrap_or(u64::MAX)
            );
            assert_eq!(
                info,
                compute_poster_info(&bytes, batch_poster_address(), price, gas, level)
            );
        }
    }
}

#[test]
fn changed_level_and_changed_bytes_fall_back() {
    let (price, gas) = (U256::from_u64(7), U256::from_u64(3));
    let mut bytes = vec![42; 512];
    let prepared = prepare(&bytes, 0);
    assert!(len_for(&prepared, &bytes, 1).is_none());
    assert_eq!(
        info_with(&bytes, price, gas, 1, Some(&prepared)),
        compute_poster_info(&bytes, batch_poster_address(), price, gas, 1)
    );
    bytes[0] = 99;
    assert!(len_for(&prepared, &bytes, 0).is_none());
    assert_eq!(
        info_with(&bytes, price, gas, 0, Some(&prepared)),
        compute_poster_info(&bytes, batch_poster_address(), price, gas, 0)
    );
    bytes.push(0);
    assert!(len_for(&prepared, &bytes, 0).is_none());
}

#[test]
fn window_and_dictionary_are_part_of_the_key() {
    let (price, gas) = (U256::from_u64(7), U256::from_u64(3));
    let bytes = b"poster compression input";
    let different_window = PreparedPosterCompression::prepare(
        bytes,
        1,
        DEFAULT_WINDOW_SIZE - 1,
        Dictionary::Empty,
    )
    .unwrap();
    assert!(len_for(&different_window, bytes, 1).is_none());
    let different_dictionary =
        PreparedPosterCompression::prepare(bytes, 11, DEFAULT_WINDOW_SIZE, dictionary()).unwrap();
    assert!(len_for(&different_dictionary, bytes, 11).is_none());
    for (prepared, level) in [(&different_window, 1), (&different_dictionary, 11)] {
        assert_eq!(
            info_with(bytes, price, gas, level, Some(prepared)),
            compute_poster_info(bytes, batch_poster_address(), price, gas, level)
        );
    }
}

#[test]
fn preparation_errors_are_not_successful_memo_entries() {
    assert_eq!(
        PreparedPosterCompression::prepare(b"input", 1, DEFAULT_WINDOW_SIZE, dictionary()).err(),
        Some(BrotliStatus::Failure)
    );
    let (price, gas) = (U256::from_u64(7), U256::from_u64(3));
    assert_eq!(
        info_with(b"input", price, gas, 1, None),
        compute_poster_info(b"input", batch_poster_address(), price, gas, 1)
    );
}

#[test]
fn empty_and_nonposter_inputs_still_have_zero_cost() {
    let prepared = prepare(b"input", 1);
    for (bytes, coinbase) in [
        (b"".as_slice(), batch_poster_address()),
        (b"input".as_slice(), Address::zero()),
    ] {
        let info = compute_poster_info_with_prepared(
            bytes,
            coinbase,
            U256::from_u64(7),
            U256::from_u64(3),
            1,
            Some(&prepared),
            &mut HitCounter::new(),
        );
        assert_eq!(info.calldata_units, 0);
        assert_eq!(info.poster_cost, U256::zero());
        assert_eq!(info.poster_gas, 0);
        assert_eq!(info.poster_fee, U256::zero());
    }
}

#[test]
fn zero_prices_preserve_units_and_fee_edge_cases() {
    let bytes = b"input";
    let prepared = prepare(bytes, 1);
    let zero_price = info_with(bytes, U256::zero(), U256::from_u64(3), 1, Some(&prepared));
    assert!(zero_price.calldata_units > 0);
    assert_eq!(zero_price.poster_cost, U256::zero());
    let zero_gas = info_with(bytes, U256::from_u64(7), U256::zero(), 1, Some(&prepared));
    assert_eq!(zero_gas.calldata_units, zero_price.calldata_units);
    assert!(!zero_gas.poster_cost.is_zero());
    assert_eq!(zero_gas.poster_gas, 0);
    assert_eq!(zero_gas.poster_fee, U256::zero());
}

#[test]
fn canonical_fallback_and_system_bytes_use_existing_encoder() {
    let mut tx = ArbTransaction::new(TxEnv::default());
    let fallback = encode_tx_bytes(&tx);
    assert!(!fallback.is_empty());
    let prepared = prepare(&fallback, 1);
    tx.encoded_2718 = Some(Bytes::from_vec(vec![1, 2, 3, 4]));
    let canonical = encode_tx_bytes(&tx);
    assert_eq!(canonical, [1, 2, 3, 4]);
    assert!(len_for(&prepared, &canonical, 1).is_none());
    for ty in PROTOCOL_TYPES {
        tx.base.tx_type = ty;
        let bytes = encode_tx_bytes(&tx);
        assert!(bytes.is_empty());
        assert_eq!(
            info_with(
                &bytes,
                U256::from_u64(7),
                U256::from_u64(3),
                1,
                Some(&prepared)
            )
            .calldata_units,
            0
        );
    }
}

#[test]
fn protocol_transactions_never_have_l1_poster_costs() {
    for tx_type in PROTOCOL_TYPES {
        assert!(!tx_type_has_poster_costs(tx_type));
    }
    for tx_type in [0_u8, 1, 2, 3, 4] {
        assert!(tx_type_has_poster_costs(tx_type));
    }
}

#[test]
fn compression_shrinks_and_depends_on_its_settings() {
    let bytes = vec![42; 512];
    let stream = compress(&bytes, 1, DEFAULT_WINDOW_SIZE, &Dictionary::Empty).unwrap();
    assert!(stream.len() < bytes.len());
    assert_ne!(stream, bytes);
    assert_eq!(compressed_len_or_fallback(&bytes, 1), stream.len() as u64);
    assert_eq!(decompress(&stream, 512), bytes);
    // Windows outside of the encoder's range are cut to it.
    assert_eq!(
        compress(&bytes, 1, 0, &Dictionary::Empty).unwrap(),
        compress(&bytes, 1, 10, &Dictionary::Empty).unwrap()
    );
    assert_eq!(
        compress(&bytes, 1, u32::MAX, &Dictionary::Empty).unwrap(),
        compress(&bytes, 1, 24, &Dictionary::Empty).unwrap()
    );
    let varied: Vec<u8> = (0..2048u32).map(|i| (i * i % 251) as u8).collect();
    assert_ne!(
        compress(&varied, 0, DEFAULT_WINDOW_SIZE, &Dictionary::Empty).unwrap(),
        compress(&varied, 11, DEFAULT_WINDOW_SIZE, &Dictionary::Empty).unwrap()
    );
    for level in [0, 1, 2, 4, 9, 11, 12, u32::MAX] {
        for len in [0usize, 1, 2048, 100_000] {
            let bytes: Vec<u8> = (0..len as u32)
                .map(|i| (i.wrapping_mul(0x9e37_79b9) >> 24) as u8)
                .collect();
            let stream = compress(&bytes, level, DEFAULT_WINDOW_SIZE, &Dictionary::Empty).unwrap();
            assert_eq!(decompress(&stream, len), bytes);
        }
    }
    for len in [0usize, 1, 2, 5_000] {
        for window in [10, DEFAULT_WINDOW_SIZE, 24] {
            let contents: Vec<u8> = (0..len as u32).map(|i| (i * 7 % 251) as u8).collect();
            let dictionary = Dictionary::StylusProgram(contents);
            assert!(compress(&bytes, 11, window, &dictionary).is_ok());
            assert!(compress(&bytes, 10, window, &dictionary).is_err());
        }
    }
    let text = b"poster compression dictionary".repeat(4);
    assert_ne!(
        compress(&text, 11, DEFAULT_WINDOW_SIZE, &Dictionary::Empty).unwrap(),
        compress(&text, 11, DEFAULT_WINDOW_SIZE, &dictionary()).unwrap()
    );
}

#[test]
fn poster_info_has_exact_values() {
    let info = poster_info_from_compressed_len(10, U256::from_u64(100), U256::from_u64(7));
    assert_eq!(info.calldata_units, 160);
    assert_eq!(info.poster_cost, U256::from_u64(16_000));
    assert_eq!(info.poster_gas, 2_285);
    assert_eq!(info.poster_fee, U256::from_u64(15_995));
}

#[test]
fn poster_info_saturates() {
    let info = poster_info_from_compressed_len(u64::MAX, U256::max(), U256::from_u64(1));
    assert_eq!(info.calldata_units, u64::MAX);
    assert_eq!(info.poster_cost, U256::max());
    assert_eq!(info.poster_gas, u64::MAX);
    assert_eq!(info.poster_fee, U256::from_u64(u64::MAX));
}

#[test]
fn fee_never_exceeds_cost_and_rounds_down() {
    for len in [1u64, 5, 300] {
        for price in [1u64, 13, 1_000_003] {
            for gas in [1u64, 2, 7, 1_000_000_007] {
                let info = poster_info_from_compressed_len(
                    len,
                    U256::from_u64(price),
                    U256::from_u64(gas),
                );
                let cost = revm_word(info.poster_cost);
                let fee = revm_word(info.poster_fee);
                assert!(fee <= cost);
                assert!(cost - fee < revm::primitives::U256::from(gas));
                let longer = poster_info_from_compressed_len(
                    len + 1,
                    U256::from_u64(price),
                    U256::from_u64(gas),
                );
                assert!(revm_word(longer.poster_cost) >= cost);
                assert!(longer.calldata_units >= info.calldata_units);
                assert!(longer.poster_gas >= info.poster_gas);
                assert!(revm_word(longer.poster_fee) >= fee);
            }
        }
    }
}

#[test]
fn legacy_fallback_encoding_is_exact() {
    let mut tx = TxEnv::default();
    tx.nonce = 1;
    tx.gas_price = 0x1234;
    tx.gas_limit = 21_000;
    tx.kind = TxKind::Create;
    tx.value = U256::zero();
    tx.data = Bytes::from_vec(vec![0x7f]);
    let mut expected = vec![0xf8, 76, 0x01, 0x82, 0x12, 0x34, 0x82, 0x52, 0x08, 0x80, 0x80, 0x7f, 0x00];
    expected.push(0xa0);
    expected.extend([0u8; 32]);
    expected.push(0xa0);
    expected.extend([0u8; 32]);
    expected[1] = (expected.len() - 2) as u8;
    assert_eq!(encode_tx_for_l1_cost(&tx), expected);
    // Types that have no encoding of their own are encoded in the same way.
    tx.tx_type = 3;
    assert_eq!(encode_tx_for_l1_cost(&tx), expected);
}

#[test]
fn typed_fallback_encodings_are_exact() {
    let mut tx = TxEnv::default();
    tx.tx_type = 2;
    tx.chain_id = None;
    tx.nonce = 0;
    tx.gas_priority_fee = Some(3);
    tx.gas_price = 5;
    tx.gas_limit = 0;
    tx.kind = TxKind::Call(Address::from_array([0xaa; 20]));
    tx.value = U256::from_u64(256);
    let mut body = vec![0x80, 0x80, 0x03, 0x05, 0x80, 0x94];
    body.extend([0xaa; 20]);
    body.extend([0x82, 0x01, 0x00, 0x80, 0xc0, 0x00, 0xa0]);
    body.extend([0; 32]);
    body.push(0xa0);
    body.extend([0; 32]);
    let mut expected = vec![0x02, 0xf8, body.len() as u8];
    expected.extend(&body);
    assert_eq!(encode_tx_for_l1_cost(&tx), expected);
    tx.tx_type = 1;
    body.remove(2);
    let mut expected = vec![0x01, 0xf8, body.len() as u8];
    expected.extend(&body);
    assert_eq!(encode_tx_for_l1_cost(&tx), expected);
}

#[test]
fn the_empty_access_list_is_a_list() {
    let mut tx = TxEnv::default();
    tx.tx_type = 2;
    tx.chain_id = Some(1);
    tx.gas_priority_fee = Some(1);
    tx.gas_price = 2;
    tx.gas_limit = 21_000;
    tx.kind = TxKind::Create;
    let mut expected = vec![
        0x02, 0xf8, 0x4e, 0x01, 0x80, 0x01, 0x02, 0x82, 0x52, 0x08, 0x80, 0x80, 0x80, 0xc0, 0x00,
        0xa0,
    ];
    expected.extend([0; 32]);
    expected.push(0xa0);
    expected.extend([0; 32]);
    assert_eq!(encode_tx_for_l1_cost(&tx), expected);
    assert_eq!(encode_tx_bytes(&ArbTransaction::new(tx)), expected);
}

#[test]
fn fallback_encodings_tell_transactions_apart() {
    let base = TxEnv::default();
    let encoded = encode_tx_for_l1_cost(&base);
    let mut other = base.clone();
    other.nonce = 1;
    assert_ne!(encode_tx_for_l1_cost(&other), encoded);
    let mut other = base.clone();
    other.kind = TxKind::Create;
    assert_ne!(encode_tx_for_l1_cost(&other), encoded);
    let mut other = base.clone();
    other.data = Bytes::from_vec(vec![0]);
    assert_ne!(encode_tx_for_l1_cost(&other), encoded);
    let mut other = base.clone();
    other.value = U256::from_u64(1);
    assert_ne!(encode_tx_for_l1_cost(&other), encoded);
}
