use arb_revm::compression::{Dictionary, HitCounter, PreparedPosterCompression, DEFAULT_WINDOW_SIZE};
use arb_revm::constants::batch_poster_address;
use arb_revm::l1_cost::compute_poster_info_with_prepared;
use arb_revm::primitives::{Address, Bytes, TxKind, B256};
use arb_revm::transaction::{
    arb_envelope_to_tx_env, AccessListItem, ArbTransaction, ArbTransactionBuilder, ArbTxEnvelope,
    ArbTxTr, Authorization, RetryTxMeta, SignedAuthorization, TxEnv, SYSTEM_CALL_GAS_LIMIT,
};
use arb_revm::words::U256;
use revm::context::tx::{TxEnvBuildError, TxEnvBuilder};
use std::sync::Arc;

fn hint() -> Arc<PreparedPosterCompression> {
    Arc::new(
        PreparedPosterCompression::prepare(
            b"canonical transaction bytes",
            0,
            DEFAULT_WINDOW_SIZE,
            Dictionary::Empty,
        )
        .unwrap(),
    )
}

fn envelope() -> ArbTxEnvelope {
    ArbTxEnvelope {
        ty: 2,
        sender: Ok(Address::from_array([0x22; 20])),
        gas_limit: 100_000,
        gas_price: None,
        max_fee_per_gas: 30,
        kind: TxKind::Call(Address::from_array([0x11; 20])),
        value: U256::from_u64(5),
        input: Bytes::from_vec(vec![1, 2, 3]),
        nonce: 7,
        chain_id: Some(42161),
        access_list: Some(vec![AccessListItem {
            address: Address::from_array([0x33; 20]),
            storage_keys: vec![B256::from_array([0x44; 32])],
        }]),
        max_priority_fee_per_gas: Some(2),
        blob_versioned_hashes: Some(vec![B256::from_array([0x55; 32])]),
        max_fee_per_blob_gas: Some(9),
        authorization_list: Some(vec![SignedAuthorization {
            chain_id: U256::from_u64(1),
            address: Address::from_array([0x66; 20]),
            nonce: 3,
            y_parity: 1,
            r: U256::from_u64(4),
            s: U256::from_u64(5),
        }]),
        retry: None,
        hash: B256::from_array([0x77; 32]),
        encoded_2718: vec![0x02, 0xc0],
    }
}

#[test]
fn prepared_hint_is_not_transaction_identity() {
    let plain = ArbTransaction::default();
    let mut prepared = plain.clone();
    let item = hint();
    prepared.prepared_poster_compression = Some(item.clone());
    assert!(plain == prepared);
    assert!(Arc::ptr_eq(
        prepared.clone().prepared_poster_compression().unwrap(),
        &item
    ));
    prepared.base.nonce += 1;
    assert!(plain != prepared);
}

#[test]
fn fresh_transactions_and_system_calls_do_not_inherit_hints() {
    assert!(ArbTransaction::new(TxEnv::default())
        .prepared_poster_compression()
        .is_none());
    assert!(ArbTransaction::default()
        .prepared_poster_compression()
        .is_none());
    assert!(ArbTransaction::builder()
        .build_fill()
        .prepared_poster_compression
        .is_none());
    let system = ArbTransaction::<TxEnv>::new_system_tx_with_caller(
        Address::zero(),
        Address::zero(),
        Bytes::new(),
    );
    assert!(system.prepared_poster_compression().is_none());
}

#[test]
fn counts_only_actual_exact_consumptions() {
    let item = hint();
    let mut hits = HitCounter::new();
    let mut run = |bytes: &[u8], level: u32, coinbase: Address| -> u64 {
        compute_poster_info_with_prepared(
            bytes,
            coinbase,
            U256::zero(),
            U256::zero(),
            level,
            Some(&item),
            &mut hits,
        );
        hits.hit_count()
    };
    run(b"wrong bytes", 0, batch_poster_address());
    run(b"canonical transaction bytes", 1, batch_poster_address());
    run(b"canonical transaction bytes", 0, Address::zero());
    assert_eq!(run(b"", 0, batch_poster_address()), 0);
    assert_eq!(
        run(b"canonical transaction bytes", 0, batch_poster_address()),
        1
    );
}

#[test]
fn envelope_lowers_every_field() {
    let tx = envelope();
    let lowered = ArbTransaction::try_from(&tx).unwrap();
    assert_eq!(lowered.tx_type(), 2);
    assert_eq!(lowered.caller(), Address::from_array([0x22; 20]));
    assert_eq!(lowered.gas_limit(), 100_000);
    assert_eq!(lowered.gas_price(), 30);
    assert_eq!(lowered.max_fee_per_gas(), 30);
    assert_eq!(
        lowered.kind(),
        TxKind::Call(Address::from_array([0x11; 20]))
    );
    assert_eq!(lowered.value(), U256::from_u64(5));
    assert_eq!(lowered.input().as_slice(), &[1, 2, 3]);
    assert_eq!(lowered.nonce(), 7);
    assert_eq!(lowered.chain_id(), Some(42161));
    assert_eq!(lowered.access_list().len(), 1);
    assert_eq!(
        lowered.access_list()[0].address,
        Address::from_array([0x33; 20])
    );
    assert_eq!(
        lowered.access_list()[0].storage_keys,
        vec![B256::from_array([0x44; 32])]
    );
    assert_eq!(lowered.max_priority_fee_per_gas(), Some(2));
    assert_eq!(
        lowered.blob_versioned_hashes(),
        &[B256::from_array([0x55; 32])]
    );
    assert_eq!(lowered.max_fee_per_blob_gas(), 9);
    assert_eq!(lowered.authorization_list_len(), 1);
    assert!(matches!(
        lowered.authorization_list()[0],
        Authorization::Signed(signed) if signed.nonce == 3
    ));
    assert_eq!(lowered.tx_hash, Some(B256::from_array([0x77; 32])));
    assert_eq!(lowered.encoded_2718_bytes(), Some(&[0x02, 0xc0][..]));
    assert!(lowered.retry_meta.is_none());
    assert!(lowered.prepared_poster_compression.is_none());
    assert_eq!(lowered.as_ref().nonce, 7);
    assert!(arb_envelope_to_tx_env(&tx).unwrap() == lowered);
}

#[test]
fn missing_envelope_fields_have_defaults() {
    let mut tx = envelope();
    tx.gas_price = Some(11);
    tx.access_list = None;
    tx.blob_versioned_hashes = None;
    tx.max_fee_per_blob_gas = None;
    tx.authorization_list = None;
    let lowered = ArbTransaction::try_from(&tx).unwrap();
    assert_eq!(lowered.gas_price(), 11);
    assert!(lowered.access_list().is_empty());
    assert!(lowered.blob_versioned_hashes().is_empty());
    assert_eq!(lowered.max_fee_per_blob_gas(), 0);
    assert_eq!(lowered.authorization_list_len(), 0);
}

#[test]
fn retry_metadata_is_kept() {
    let meta = RetryTxMeta {
        ticket_id: B256::from_array([9; 32]),
        refund_to: Address::from_array([8; 20]),
        max_refund: U256::from_u64(7),
        submission_fee_refund: U256::from_u64(6),
    };
    let mut tx = envelope();
    tx.retry = Some(meta);
    assert_eq!(
        ArbTransaction::try_from(&tx).unwrap().retry_meta(),
        Some(&meta)
    );
    let built = ArbTransaction::new(TxEnv::default())
        .with_retry_meta(meta)
        .with_tx_hash(B256::from_array([1; 32]))
        .with_encoded_2718(Bytes::from_vec(vec![5]));
    assert_eq!(built.retry_meta(), Some(&meta));
    assert_eq!(built.tx_hash(), Some(B256::from_array([1; 32])));
    assert_eq!(built.encoded_2718_shared().unwrap().as_slice(), &[5]);
}

#[test]
fn a_sender_that_cannot_be_recovered_is_an_error() {
    let mut tx = envelope();
    tx.sender = Err("bad signature".to_string());
    assert_eq!(
        ArbTransaction::try_from(&tx).err().unwrap().message(),
        "failed to recover transaction sender: bad signature"
    );
    let error = arb_envelope_to_tx_env(&tx).err().unwrap();
    assert_eq!(error, error.clone());
    tx.sender = Err("no signature".to_string());
    assert_ne!(error, arb_envelope_to_tx_env(&tx).err().unwrap());
}

#[test]
fn effective_gas_price_is_clamped_to_the_base_fee() {
    let mut tx = ArbTransaction::default();
    tx.base.gas_price = 1_000;
    assert_eq!(tx.effective_gas_price(100), 100);
    assert_eq!(tx.effective_gas_price(2_000), 1_000);
    tx.base.tx_type = 2;
    tx.base.gas_priority_fee = Some(5);
    assert_eq!(tx.base.effective_gas_price(100), 105);
    assert_eq!(tx.effective_gas_price(100), 100);
    tx.base.gas_priority_fee = Some(u128::MAX);
    assert_eq!(tx.base.effective_gas_price(100), 1_000);
}

#[test]
fn base_fields_agree_with_revm() {
    let ours = TxEnv::default();
    let theirs = revm::context::TxEnv::default();
    assert_eq!(ours.tx_type, theirs.tx_type);
    assert_eq!(ours.gas_limit, theirs.gas_limit);
    assert_eq!(ours.gas_price, theirs.gas_price);
    assert_eq!(ours.chain_id, theirs.chain_id);
    assert_eq!(ours.nonce, theirs.nonce);
    let ours = ArbTransaction::<TxEnv>::new_system_tx_with_caller(
        Address::from_array([1; 20]),
        Address::from_array([2; 20]),
        Bytes::from_vec(vec![3]),
    );
    assert_eq!(ours.gas_limit(), SYSTEM_CALL_GAS_LIMIT);
    assert_eq!(ours.caller(), Address::from_array([1; 20]));
    assert_eq!(ours.kind(), TxKind::Call(Address::from_array([2; 20])));
    assert_eq!(ours.input().as_slice(), &[3]);
    let theirs = <revm::context::TxEnv as revm::handler::SystemCallTx>::new_system_tx_with_caller(
        revm::primitives::Address::from([1; 20]),
        revm::primitives::Address::from([2; 20]),
        vec![3].into(),
    );
    assert_eq!(ours.gas_limit(), theirs.gas_limit);
    assert_eq!(ours.chain_id(), theirs.chain_id);
}

#[test]
fn builder_passes_base_fields_and_errors_on() {
    let filled = ArbTransaction::builder().build_fill();
    assert_eq!(filled.base, revm::context::TxEnv::default());
    assert!(filled.tx_hash.is_none() && filled.encoded_2718.is_none());
    assert!(filled.retry_meta.is_none());
    assert!(filled == ArbTransactionBuilder::default().build_fill());

    let built = ArbTransaction::builder()
        .base(TxEnvBuilder::new().nonce(2).gas_priority_fee(Some(7)))
        .build()
        .unwrap();
    assert_eq!(built.base.nonce, 2);
    assert_eq!(built.base.tx_type, 2);
    assert!(built.tx_hash.is_none() && built.encoded_2718.is_none());

    let incomplete = || TxEnvBuilder::new().tx_type(Some(2)).gas_price(9);
    assert_eq!(
        ArbTransactionBuilder::new().base(incomplete()).build().err(),
        Some(TxEnvBuildError::MissingGasPriorityFeeForEip1559)
    );
    let repaired = ArbTransactionBuilder::new().base(incomplete()).build_fill();
    assert_eq!(repaired.base.gas_priority_fee, Some(0));
    assert_eq!(repaired.as_ref().gas_price, 9);
    assert!(repaired.clone() == repaired);
    assert!(repaired != filled);
}
