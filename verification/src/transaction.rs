//! Transactions as the execution layer sees them, and their Arbitrum extensions.
use crate::bytes::bytes_eq;
use crate::compression::PreparedPosterCompression;
use crate::primitives::{copy_items, same_items, Address, Bytes, Same, TxKind, B256};
use crate::text::same_text;
use crate::words::U256;
use revm::context::tx::{TxEnvBuildError, TxEnvBuilder};
use revm::context::TxEnv as RevmTxEnv;
use std::sync::Arc;
use vstd::prelude::*;
use vstd::std_specs::cmp::PartialEqSpec;

verus! {

/// Gas limit of a transaction that sets none.
pub const DEFAULT_GAS_LIMIT: u64 = 16_777_216;

/// Gas limit of a system call.
pub const SYSTEM_CALL_GAS_LIMIT: u64 = 31_566_720;

/// An account and the storage slots of it that a transaction plans to access.
#[derive(Debug)]
pub struct AccessListItem {
    pub address: Address,
    pub storage_keys: Vec<B256>,
}

impl View for AccessListItem {
    type V = (Address, Seq<B256>);

    open spec fn view(&self) -> (Address, Seq<B256>) {
        (self.address, self.storage_keys@)
    }
}

/// A signed permission to set the code of an account.
#[derive(Clone, Copy, Debug, PartialEq, Eq, Structural)]
pub struct SignedAuthorization {
    pub chain_id: U256,
    pub address: Address,
    pub nonce: u64,
    pub y_parity: u8,
    pub r: U256,
    pub s: U256,
}

/// A permission to set the code of an account whose signer is known.
#[derive(Clone, Copy, Debug, PartialEq, Eq, Structural)]
pub struct RecoveredAuthorization {
    pub chain_id: U256,
    pub address: Address,
    pub nonce: u64,
    /// The account that signed, or nothing where the signature is invalid.
    pub authority: Option<Address>,
}

/// A permission to set the code of an account, as a transaction carries it.
#[derive(Clone, Copy, Debug, PartialEq, Eq, Structural)]
pub enum Authorization {
    Signed(SignedAuthorization),
    Recovered(RecoveredAuthorization),
}

/// Base fields of a transaction.
#[derive(Debug)]
pub struct TxEnv {
    pub tx_type: u8,
    pub caller: Address,
    pub gas_limit: u64,
    /// For dynamic-fee transactions, the largest fee per gas.
    pub gas_price: u128,
    pub kind: TxKind,
    pub value: U256,
    pub data: Bytes,
    pub nonce: u64,
    pub chain_id: Option<u64>,
    pub access_list: Vec<AccessListItem>,
    pub gas_priority_fee: Option<u128>,
    pub blob_hashes: Vec<B256>,
    pub max_fee_per_blob_gas: u128,
    pub authorization_list: Vec<Authorization>,
}

/// What the base fields of a transaction hold.
pub struct TxModel {
    pub tx_type: u8,
    pub caller: Address,
    pub gas_limit: u64,
    pub gas_price: u128,
    pub kind: TxKind,
    pub value: U256,
    pub data: Seq<u8>,
    pub nonce: u64,
    pub chain_id: Option<u64>,
    pub access_list: Seq<(Address, Seq<B256>)>,
    pub gas_priority_fee: Option<u128>,
    pub blob_hashes: Seq<B256>,
    pub max_fee_per_blob_gas: u128,
    pub authorization_list: Seq<Authorization>,
}

/// The contents of an access list.
pub open spec fn access_contents(items: Seq<AccessListItem>) -> Seq<(Address, Seq<B256>)> {
    Seq::new(items.len(), |i: int| items[i]@)
}

impl View for TxEnv {
    type V = TxModel;

    open spec fn view(&self) -> TxModel {
        TxModel {
            tx_type: self.tx_type,
            caller: self.caller,
            gas_limit: self.gas_limit,
            gas_price: self.gas_price,
            kind: self.kind,
            value: self.value,
            data: self.data@,
            nonce: self.nonce,
            chain_id: self.chain_id,
            access_list: access_contents(self.access_list@),
            gas_priority_fee: self.gas_priority_fee,
            blob_hashes: self.blob_hashes@,
            max_fee_per_blob_gas: self.max_fee_per_blob_gas,
            authorization_list: self.authorization_list@,
        }
    }
}

/// The fields of a transaction that sets none: a call of the zero address on chain 1.
pub open spec fn default_tx() -> TxModel {
    TxModel {
        tx_type: 0,
        caller: Address { hi: 0, mid: 0, lo: 0 },
        gas_limit: DEFAULT_GAS_LIMIT,
        gas_price: 0,
        kind: TxKind::Call(Address { hi: 0, mid: 0, lo: 0 }),
        value: U256 { l0: 0, l1: 0, l2: 0, l3: 0 },
        data: Seq::empty(),
        nonce: 0,
        chain_id: Some(1u64),
        access_list: Seq::empty(),
        gas_priority_fee: None,
        blob_hashes: Seq::empty(),
        max_fee_per_blob_gas: 0,
        authorization_list: Seq::empty(),
    }
}

/// The fields of a system call.
pub open spec fn system_tx(caller: Address, target: Address, data: Seq<u8>) -> TxModel {
    TxModel {
        caller,
        kind: TxKind::Call(target),
        data,
        gas_limit: SYSTEM_CALL_GAS_LIMIT,
        ..default_tx()
    }
}

/// The price per gas that a transaction pays on a chain that collects tips: the gas price
/// of transactions before the dynamic fee, else the base fee and the priority fee together
/// up to the largest fee.
pub open spec fn tipped_gas_price(tx: TxModel, base_fee: u128) -> u128 {
    if tx.tx_type == 0 || tx.tx_type == 1 {
        tx.gas_price
    } else {
        match tx.gas_priority_fee {
            None => tx.gas_price,
            Some(tip) => if base_fee + tip < tx.gas_price {
                (base_fee + tip) as u128
            } else {
                tx.gas_price
            },
        }
    }
}

impl Default for TxEnv {
    fn default() -> (r: TxEnv)
        ensures
            r@ == default_tx(),
    {
        let r = TxEnv {
            tx_type: 0,
            caller: Address { hi: 0, mid: 0, lo: 0 },
            gas_limit: DEFAULT_GAS_LIMIT,
            gas_price: 0,
            kind: TxKind::Call(Address { hi: 0, mid: 0, lo: 0 }),
            value: U256 { l0: 0, l1: 0, l2: 0, l3: 0 },
            data: Bytes::new(),
            nonce: 0,
            chain_id: Some(1),
            access_list: Vec::new(),
            gas_priority_fee: None,
            blob_hashes: Vec::new(),
            max_fee_per_blob_gas: 0,
            authorization_list: Vec::new(),
        };
        assert(r@.access_list =~= default_tx().access_list);
        r
    }
}

impl TxEnv {
    /// The base fields of a system call.
    pub fn new_system_tx_with_caller(
        caller: Address,
        system_contract_address: Address,
        data: Bytes,
    ) -> (r: TxEnv)
        ensures
            r@ == system_tx(caller, system_contract_address, data@),
    {
        let base = TxEnv::default();
        TxEnv {
            tx_type: base.tx_type,
            caller,
            gas_limit: SYSTEM_CALL_GAS_LIMIT,
            gas_price: base.gas_price,
            kind: TxKind::Call(system_contract_address),
            value: base.value,
            data,
            nonce: base.nonce,
            chain_id: base.chain_id,
            access_list: base.access_list,
            gas_priority_fee: base.gas_priority_fee,
            blob_hashes: base.blob_hashes,
            max_fee_per_blob_gas: base.max_fee_per_blob_gas,
            authorization_list: base.authorization_list,
        }
    }

    /// The price per gas on a chain that collects tips.
    pub fn effective_gas_price(&self, base_fee: u128) -> (r: u128)
        ensures
            r == tipped_gas_price(self@, base_fee),
    {
        if self.tx_type == 0 || self.tx_type == 1 {
            return self.gas_price;
        }
        match self.gas_priority_fee {
            None => self.gas_price,
            Some(tip) => match base_fee.checked_add(tip) {
                Some(sum) => if sum < self.gas_price {
                    sum
                } else {
                    self.gas_price
                },
                None => self.gas_price,
            },
        }
    }
}

impl Same for Authorization {
    fn same(&self, other: &Authorization) -> (r: bool) {
        *self == *other
    }
}

/// Signed authorizations as a transaction carries them.
pub open spec fn as_signed(items: Seq<SignedAuthorization>) -> Seq<Authorization> {
    Seq::new(items.len(), |i: int| Authorization::Signed(items[i]))
}

/// Signed authorizations as a transaction carries them.
fn carry_signed(items: &Vec<SignedAuthorization>) -> (r: Vec<Authorization>)
    ensures
        r@ == as_signed(items@),
{
    let mut out: Vec<Authorization> = Vec::new();
    let mut i: usize = 0;
    while i < items.len()
        invariant
            0 <= i <= items@.len(),
            out@ == as_signed(items@.take(i as int)),
        decreases items@.len() - i,
    {
        out.push(Authorization::Signed(items[i]));
        i = i + 1;
        assert(out@ =~= as_signed(items@.take(i as int)));
    }
    assert(items@.take(i as int) =~= items@);
    out
}

/// Copies an access list.
fn copy_access_list(items: &Vec<AccessListItem>) -> (r: Vec<AccessListItem>)
    ensures
        access_contents(r@) == access_contents(items@),
{
    let mut out: Vec<AccessListItem> = Vec::new();
    let mut i: usize = 0;
    while i < items.len()
        invariant
            0 <= i <= items@.len(),
            out@.len() == i,
            forall|j: int| 0 <= j < i ==> (#[trigger] out@[j])@ == items@[j]@,
        decreases items@.len() - i,
    {
        out.push(
            AccessListItem {
                address: items[i].address,
                storage_keys: copy_items(&items[i].storage_keys),
            },
        );
        i = i + 1;
    }
    assert(access_contents(out@) =~= access_contents(items@));
    out
}

/// Whether two access lists have the same contents.
fn access_lists_eq(a: &Vec<AccessListItem>, b: &Vec<AccessListItem>) -> (r: bool)
    ensures
        r == (access_contents(a@) == access_contents(b@)),
{
    if a.len() != b.len() {
        assert(access_contents(a@).len() != access_contents(b@).len());
        return false;
    }
    let mut i: usize = 0;
    while i < a.len()
        invariant
            0 <= i <= a@.len(),
            a@.len() == b@.len(),
            forall|j: int| 0 <= j < i ==> (#[trigger] a@[j])@ == b@[j]@,
        decreases a@.len() - i,
    {
        if a[i].address != b[i].address || !same_items(&a[i].storage_keys, &b[i].storage_keys) {
            assert(access_contents(a@)[i as int] != access_contents(b@)[i as int]);
            return false;
        }
        i = i + 1;
    }
    assert(access_contents(a@) =~= access_contents(b@));
    true
}

impl Clone for TxEnv {
    fn clone(&self) -> (r: TxEnv)
        ensures
            r@ == self@,
    {
        TxEnv {
            tx_type: self.tx_type,
            caller: self.caller,
            gas_limit: self.gas_limit,
            gas_price: self.gas_price,
            kind: self.kind,
            value: self.value,
            data: self.data.clone(),
            nonce: self.nonce,
            chain_id: self.chain_id,
            access_list: copy_access_list(&self.access_list),
            gas_priority_fee: self.gas_priority_fee,
            blob_hashes: copy_items(&self.blob_hashes),
            max_fee_per_blob_gas: self.max_fee_per_blob_gas,
            authorization_list: copy_items(&self.authorization_list),
        }
    }
}

impl PartialEq for TxEnv {
    fn eq(&self, other: &TxEnv) -> (r: bool) {
        self.tx_type == other.tx_type && self.caller == other.caller && self.gas_limit
            == other.gas_limit && self.gas_price == other.gas_price && self.kind == other.kind
            && self.value == other.value && bytes_eq(self.data.as_slice(), other.data.as_slice())
            && self.nonce == other.nonce && self.chain_id == other.chain_id && access_lists_eq(
            &self.access_list,
            &other.access_list,
        ) && self.gas_priority_fee == other.gas_priority_fee && same_items(
            &self.blob_hashes,
            &other.blob_hashes,
        ) && self.max_fee_per_blob_gas == other.max_fee_per_blob_gas && same_items(
            &self.authorization_list,
            &other.authorization_list,
        )
    }
}

impl vstd::std_specs::cmp::PartialEqSpecImpl for TxEnv {
    open spec fn obeys_eq_spec() -> bool {
        true
    }

    open spec fn eq_spec(&self, other: &TxEnv) -> bool {
        self@ == other@
    }
}

impl Eq for TxEnv {

}

/// Metadata of a retry transaction that the base fields cannot hold.
#[derive(Clone, Copy, Debug, PartialEq, Eq, Structural)]
pub struct RetryTxMeta {
    /// Retryable ticket being redeemed.
    pub ticket_id: B256,
    /// Recipient of the refund.
    pub refund_to: Address,
    /// Largest amount that can be refunded.
    pub max_refund: U256,
    /// The part of the refund that is the submission fee.
    pub submission_fee_refund: U256,
}

/// Why an envelope could not be lowered: its sender could not be recovered.
#[derive(Debug)]
pub struct TxConversionError {
    message: String,
}

impl TxConversionError {
    /// The text of the error.
    pub closed spec fn text(self) -> Seq<char> {
        self.message@
    }

    /// The error for a sender that could not be recovered, with the reason.
    pub fn sender(reason: &str) -> (r: TxConversionError)
        ensures
            r.text() == "failed to recover transaction sender: "@ + reason@,
    {
        let mut message = "failed to recover transaction sender: ".to_owned();
        message.append(reason);
        TxConversionError { message }
    }

    /// The text of the error.
    pub fn message(&self) -> (r: String)
        ensures
            r@ == self.text(),
    {
        self.message.clone()
    }
}

impl Clone for TxConversionError {
    fn clone(&self) -> (r: TxConversionError)
        ensures
            r.text() == self.text(),
    {
        TxConversionError { message: self.message.clone() }
    }
}

impl PartialEq for TxConversionError {
    fn eq(&self, other: &TxConversionError) -> (r: bool) {
        same_text(self.message.as_str(), other.message.as_str())
    }
}

impl vstd::std_specs::cmp::PartialEqSpecImpl for TxConversionError {
    open spec fn obeys_eq_spec() -> bool {
        true
    }

    open spec fn eq_spec(&self, other: &TxConversionError) -> bool {
        self.text() == other.text()
    }
}

impl Eq for TxConversionError {

}

/// A consensus transaction with what its envelope tells about it.
#[derive(Debug)]
pub struct ArbTxEnvelope {
    pub ty: u8,
    /// The sender, or why it could not be recovered.
    pub sender: Result<Address, String>,
    pub gas_limit: u64,
    pub gas_price: Option<u128>,
    pub max_fee_per_gas: u128,
    pub kind: TxKind,
    pub value: U256,
    pub input: Bytes,
    pub nonce: u64,
    pub chain_id: Option<u64>,
    pub access_list: Option<Vec<AccessListItem>>,
    pub max_priority_fee_per_gas: Option<u128>,
    pub blob_versioned_hashes: Option<Vec<B256>>,
    pub max_fee_per_blob_gas: Option<u128>,
    pub authorization_list: Option<Vec<SignedAuthorization>>,
    /// Present in retry transactions only.
    pub retry: Option<RetryTxMeta>,
    pub hash: B256,
    /// The canonical envelope bytes.
    pub encoded_2718: Vec<u8>,
}

/// The base fields that an envelope lowers to: missing lists are empty, a missing gas
/// price is the largest fee, and a missing blob fee is zero.
pub open spec fn lowered(tx: ArbTxEnvelope, caller: Address) -> TxModel {
    TxModel {
        tx_type: tx.ty,
        caller,
        gas_limit: tx.gas_limit,
        gas_price: match tx.gas_price {
            Some(price) => price,
            None => tx.max_fee_per_gas,
        },
        kind: tx.kind,
        value: tx.value,
        data: tx.input@,
        nonce: tx.nonce,
        chain_id: tx.chain_id,
        access_list: match tx.access_list {
            Some(items) => access_contents(items@),
            None => Seq::empty(),
        },
        gas_priority_fee: tx.max_priority_fee_per_gas,
        blob_hashes: match tx.blob_versioned_hashes {
            Some(hashes) => hashes@,
            None => Seq::empty(),
        },
        max_fee_per_blob_gas: match tx.max_fee_per_blob_gas {
            Some(fee) => fee,
            None => 0,
        },
        authorization_list: match tx.authorization_list {
            Some(items) => as_signed(items@),
            None => Seq::empty(),
        },
    }
}

/// A transaction with its Arbitrum extensions.
#[derive(Debug)]
pub struct ArbTransaction<T> {
    /// Base transaction fields.
    pub base: T,
    /// Metadata of a retry transaction.
    pub retry_meta: Option<RetryTxMeta>,
    /// Consensus transaction hash, where the transaction came from an envelope.
    pub tx_hash: Option<B256>,
    /// Canonical envelope bytes, where they are known.
    pub encoded_2718: Option<Bytes>,
    /// Optional hint, checked against the exact bytes and the current settings where it is
    /// used. It is no part of the transaction's identity.
    pub prepared_poster_compression: Option<Arc<PreparedPosterCompression>>,
}

/// The bytes that an optional byte string holds.
pub open spec fn optional_bytes(bytes: Option<Bytes>) -> Option<Seq<u8>> {
    match bytes {
        Some(bytes) => Some(bytes@),
        None => None,
    }
}

impl<T> ArbTransaction<T> {
    /// Whether no extension is set.
    pub open spec fn is_bare(self) -> bool {
        &&& self.retry_meta is None
        &&& self.tx_hash is None
        &&& self.encoded_2718 is None
        &&& self.prepared_poster_compression is None
    }

    /// Wraps base fields without any extension.
    pub fn new(base: T) -> (r: ArbTransaction<T>)
        ensures
            r.base == base,
            r.is_bare(),
    {
        ArbTransaction {
            base,
            retry_meta: None,
            tx_hash: None,
            encoded_2718: None,
            prepared_poster_compression: None,
        }
    }

    /// Attaches retry metadata.
    pub fn with_retry_meta(self, retry_meta: RetryTxMeta) -> (r: ArbTransaction<T>)
        ensures
            r == (ArbTransaction { retry_meta: Some(retry_meta), ..self }),
    {
        let mut tx = self;
        tx.retry_meta = Some(retry_meta);
        tx
    }

    /// Attaches a consensus transaction hash.
    pub fn with_tx_hash(self, tx_hash: B256) -> (r: ArbTransaction<T>)
        ensures
            r == (ArbTransaction { tx_hash: Some(tx_hash), ..self }),
    {
        let mut tx = self;
        tx.tx_hash = Some(tx_hash);
        tx
    }

    /// Attaches canonical envelope bytes.
    pub fn with_encoded_2718(self, encoded_2718: Bytes) -> (r: ArbTransaction<T>)
        ensures
            r == (ArbTransaction { encoded_2718: Some(encoded_2718), ..self }),
    {
        let mut tx = self;
        tx.encoded_2718 = Some(encoded_2718);
        tx
    }

    /// The base fields.
    pub fn as_ref(&self) -> (r: &T)
        ensures
            *r == self.base,
    {
        &self.base
    }
}

/// Whether a result is what lowering an envelope gives: the transaction that is executed, where
/// the sender is known, and else the error with the reason.
pub open spec fn is_lowering(
    tx: ArbTxEnvelope,
    r: Result<ArbTransaction<TxEnv>, TxConversionError>,
) -> bool {
    match tx.sender {
        Ok(caller) => r matches Ok(t) && {
            &&& t.base@ == lowered(tx, caller)
            &&& t.retry_meta == tx.retry
            &&& t.tx_hash == Some(tx.hash)
            &&& optional_bytes(t.encoded_2718) == Some(tx.encoded_2718@)
            &&& t.prepared_poster_compression is None
        },
        Err(reason) => r matches Err(e) && e.text() == "failed to recover transaction sender: "@
            + reason@,
    }
}

impl TryFrom<&ArbTxEnvelope> for ArbTransaction<TxEnv> {
    type Error = TxConversionError;

    /// Lowers a consensus envelope into the transaction that is executed.
    fn try_from(tx: &ArbTxEnvelope) -> (r: Result<ArbTransaction<TxEnv>, TxConversionError>)
        ensures
            is_lowering(*tx, r),
    {
        let caller = match &tx.sender {
            Ok(caller) => *caller,
            Err(reason) => return Err(TxConversionError::sender(reason.as_str())),
        };
        let access_list = match &tx.access_list {
            Some(items) => copy_access_list(items),
            None => Vec::new(),
        };
        let blob_hashes = match &tx.blob_versioned_hashes {
            Some(hashes) => copy_items(hashes),
            None => Vec::new(),
        };
        let authorization_list = match &tx.authorization_list {
            Some(items) => carry_signed(items),
            None => Vec::new(),
        };
        let base = TxEnv {
            tx_type: tx.ty,
            caller,
            gas_limit: tx.gas_limit,
            gas_price: match tx.gas_price {
                Some(price) => price,
                None => tx.max_fee_per_gas,
            },
            kind: tx.kind,
            value: tx.value,
            data: tx.input.clone(),
            nonce: tx.nonce,
            chain_id: tx.chain_id,
            access_list,
            gas_priority_fee: tx.max_priority_fee_per_gas,
            blob_hashes,
            max_fee_per_blob_gas: match tx.max_fee_per_blob_gas {
                Some(fee) => fee,
                None => 0,
            },
            authorization_list,
        };
        let mut encoded: Vec<u8> = Vec::new();
        encoded.extend_from_slice(tx.encoded_2718.as_slice());
        proof {
            assert(encoded@ =~= tx.encoded_2718@);
            assert(base@.access_list =~= lowered(*tx, caller).access_list);
        }
        Ok(
            ArbTransaction {
                base,
                retry_meta: tx.retry,
                tx_hash: Some(tx.hash),
                encoded_2718: Some(Bytes::from_vec(encoded)),
                prepared_poster_compression: None,
            },
        )
    }
}

impl vstd::std_specs::convert::TryFromSpecImpl<&ArbTxEnvelope> for ArbTransaction<TxEnv> {
    open spec fn obeys_try_from_spec() -> bool {
        false
    }

    open spec fn try_from_spec(tx: &ArbTxEnvelope) -> Result<
        ArbTransaction<TxEnv>,
        TxConversionError,
    > {
        arbitrary()
    }
}

impl ArbTransaction<TxEnv> {
    /// A system call, without any extension.
    pub fn new_system_tx_with_caller(
        caller: Address,
        system_contract_address: Address,
        data: Bytes,
    ) -> (r: ArbTransaction<TxEnv>)
        ensures
            r.base@ == system_tx(caller, system_contract_address, data@),
            r.is_bare(),
    {
        ArbTransaction::new(TxEnv::new_system_tx_with_caller(caller, system_contract_address, data))
    }

    /// The price per gas that execution sees. Tips are not collected, so it never exceeds
    /// the base fee.
    pub fn effective_gas_price(&self, base_fee: u128) -> (r: u128)
        ensures
            r == (if tipped_gas_price(self.base@, base_fee) < base_fee {
                tipped_gas_price(self.base@, base_fee)
            } else {
                base_fee
            }),
            r <= base_fee,
    {
        let price = self.base.effective_gas_price(base_fee);
        if price < base_fee {
            price
        } else {
            base_fee
        }
    }
}

/// Lowers a consensus envelope into the transaction that is executed.
pub fn arb_envelope_to_tx_env(tx: &ArbTxEnvelope) -> (r: Result<
    ArbTransaction<TxEnv>,
    TxConversionError,
>)
    ensures
        is_lowering(*tx, r),
{
    ArbTransaction::try_from(tx)
}

impl Default for ArbTransaction<TxEnv> {
    fn default() -> (r: ArbTransaction<TxEnv>)
        ensures
            r.base@ == default_tx(),
            r.is_bare(),
    {
        ArbTransaction::new(TxEnv::default())
    }
}

impl<T: Clone> Clone for ArbTransaction<T> {
    /// Copies the fields and shares the hint.
    fn clone(&self) -> (r: ArbTransaction<T>)
        ensures
            cloned(self.base, r.base),
            r.retry_meta == self.retry_meta,
            r.tx_hash == self.tx_hash,
            optional_bytes(r.encoded_2718) == optional_bytes(self.encoded_2718),
            r.prepared_poster_compression == self.prepared_poster_compression,
    {
        ArbTransaction {
            base: self.base.clone(),
            retry_meta: self.retry_meta,
            tx_hash: self.tx_hash,
            encoded_2718: match &self.encoded_2718 {
                Some(bytes) => Some(bytes.clone()),
                None => None,
            },
            prepared_poster_compression: match &self.prepared_poster_compression {
                Some(hint) => Some(hint.clone()),
                None => None,
            },
        }
    }
}

impl<T: PartialEq> PartialEq for ArbTransaction<T> {
    /// Compares everything but the hint.
    fn eq(&self, other: &ArbTransaction<T>) -> (r: bool) {
        let same_retry = match (self.retry_meta, other.retry_meta) {
            (Some(a), Some(b)) => a == b,
            (None, None) => true,
            _ => false,
        };
        let same_hash = match (self.tx_hash, other.tx_hash) {
            (Some(a), Some(b)) => a == b,
            (None, None) => true,
            _ => false,
        };
        let same_encoding = match (&self.encoded_2718, &other.encoded_2718) {
            (Some(a), Some(b)) => bytes_eq(a.as_slice(), b.as_slice()),
            (None, None) => true,
            _ => false,
        };
        self.base == other.base && same_retry && same_hash && same_encoding
    }
}

impl<T: PartialEq> vstd::std_specs::cmp::PartialEqSpecImpl for ArbTransaction<T> {
    open spec fn obeys_eq_spec() -> bool {
        T::obeys_eq_spec()
    }

    open spec fn eq_spec(&self, other: &ArbTransaction<T>) -> bool {
        &&& self.base.eq_spec(&other.base)
        &&& self.retry_meta == other.retry_meta
        &&& self.tx_hash == other.tx_hash
        &&& optional_bytes(self.encoded_2718) == optional_bytes(other.encoded_2718)
    }
}

impl<T: Eq> Eq for ArbTransaction<T> {

}

/// The hint is no part of a transaction's identity: with any other it is the same
/// transaction.
pub proof fn lemma_hint_is_no_identity(
    tx: ArbTransaction<TxEnv>,
    hint: Option<Arc<PreparedPosterCompression>>,
)
    ensures
        PartialEqSpec::eq_spec(
            &tx,
            &(ArbTransaction { prepared_poster_compression: hint, ..tx }),
        ),
{
}

/// What execution asks of a transaction beyond its base fields. Users implement it for
/// transaction types of their own.
pub trait ArbTxTr {
    /// The base fields.
    open spec fn fields(&self) -> TxModel {
        arbitrary()
    }

    /// The canonical envelope bytes, where they are known.
    open spec fn canonical(&self) -> Option<Seq<u8>> {
        arbitrary()
    }

    /// The base fields.
    fn base_fields(&self) -> (r: &TxEnv)
        ensures
            r@ == self.fields(),
    ;

    /// The canonical envelope bytes, where they are known.
    fn encoded_2718_bytes(&self) -> (r: Option<&[u8]>)
        ensures
            match r {
                Some(bytes) => self.canonical() == Some(bytes@),
                None => self.canonical() is None,
            },
    ;

    /// Shared ownership of the canonical envelope bytes, where it is offered: the same
    /// bytes, never those of another transaction.
    fn encoded_2718_shared(&self) -> (r: Option<Bytes>)
        ensures
            r matches Some(bytes) ==> self.canonical() == Some(bytes@),
        default_ensures
            r is None,
    {
        None
    }

    /// Metadata of a retry transaction.
    fn retry_meta(&self) -> (r: Option<&RetryTxMeta>)
        default_ensures
            r is None,
    {
        None
    }

    /// The consensus transaction hash, where it is known.
    fn tx_hash(&self) -> (r: Option<B256>)
        default_ensures
            r is None,
    {
        None
    }

    /// An optional hint, which never changes what the transaction means.
    fn prepared_poster_compression(&self) -> (r: Option<&Arc<PreparedPosterCompression>>)
        default_ensures
            r is None,
    {
        None
    }
}

impl ArbTxTr for ArbTransaction<TxEnv> {
    open spec fn fields(&self) -> TxModel {
        self.base@
    }

    open spec fn canonical(&self) -> Option<Seq<u8>> {
        optional_bytes(self.encoded_2718)
    }

    fn base_fields(&self) -> (r: &TxEnv)
        ensures
            *r == self.base,
    {
        &self.base
    }

    fn encoded_2718_bytes(&self) -> (r: Option<&[u8]>) {
        match &self.encoded_2718 {
            Some(bytes) => Some(bytes.as_slice()),
            None => None,
        }
    }

    fn encoded_2718_shared(&self) -> (r: Option<Bytes>)
        ensures
            optional_bytes(r) == optional_bytes(self.encoded_2718),
    {
        match &self.encoded_2718 {
            Some(bytes) => Some(bytes.clone()),
            None => None,
        }
    }

    fn retry_meta(&self) -> (r: Option<&RetryTxMeta>)
        ensures
            match r {
                Some(meta) => self.retry_meta == Some(*meta),
                None => self.retry_meta is None,
            },
    {
        self.retry_meta.as_ref()
    }

    fn tx_hash(&self) -> (r: Option<B256>)
        ensures
            r == self.tx_hash,
    {
        self.tx_hash
    }

    fn prepared_poster_compression(&self) -> (r: Option<&Arc<PreparedPosterCompression>>)
        ensures
            match r {
                Some(hint) => self.prepared_poster_compression == Some(*hint),
                None => self.prepared_poster_compression is None,
            },
    {
        self.prepared_poster_compression.as_ref()
    }
}

impl ArbTransaction<TxEnv> {
    /// The transaction type.
    pub fn tx_type(&self) -> (r: u8)
        ensures
            r == self.base@.tx_type,
    {
        self.base.tx_type
    }

    /// The sender.
    pub fn caller(&self) -> (r: Address)
        ensures
            r == self.base@.caller,
    {
        self.base.caller
    }

    /// The gas limit.
    pub fn gas_limit(&self) -> (r: u64)
        ensures
            r == self.base@.gas_limit,
    {
        self.base.gas_limit
    }

    /// The amount that is sent along.
    pub fn value(&self) -> (r: U256)
        ensures
            r == self.base@.value,
    {
        self.base.value
    }

    /// The input data.
    pub fn input(&self) -> (r: &Bytes)
        ensures
            r@ == self.base@.data,
    {
        &self.base.data
    }

    /// The nonce.
    pub fn nonce(&self) -> (r: u64)
        ensures
            r == self.base@.nonce,
    {
        self.base.nonce
    }

    /// Where the transaction is sent.
    pub fn kind(&self) -> (r: TxKind)
        ensures
            r == self.base@.kind,
    {
        self.base.kind
    }

    /// The chain that the transaction is meant for, if it tells.
    pub fn chain_id(&self) -> (r: Option<u64>)
        ensures
            r == self.base@.chain_id,
    {
        self.base.chain_id
    }

    /// The access list.
    pub fn access_list(&self) -> (r: &Vec<AccessListItem>)
        ensures
            access_contents(r@) == self.base@.access_list,
    {
        &self.base.access_list
    }

    /// The largest priority fee per gas, if there is one.
    pub fn max_priority_fee_per_gas(&self) -> (r: Option<u128>)
        ensures
            r == self.base@.gas_priority_fee,
    {
        self.base.gas_priority_fee
    }

    /// The largest fee per gas, which is the gas price.
    pub fn max_fee_per_gas(&self) -> (r: u128)
        ensures
            r == self.base@.gas_price,
    {
        self.base.gas_price
    }

    /// The gas price.
    pub fn gas_price(&self) -> (r: u128)
        ensures
            r == self.base@.gas_price,
    {
        self.base.gas_price
    }

    /// The hashes of the blobs.
    pub fn blob_versioned_hashes(&self) -> (r: &[B256])
        ensures
            r@ == self.base@.blob_hashes,
    {
        self.base.blob_hashes.as_slice()
    }

    /// The largest fee per blob gas.
    pub fn max_fee_per_blob_gas(&self) -> (r: u128)
        ensures
            r == self.base@.max_fee_per_blob_gas,
    {
        self.base.max_fee_per_blob_gas
    }

    /// How many authorizations there are.
    pub fn authorization_list_len(&self) -> (r: usize)
        ensures
            r == self.base@.authorization_list.len(),
    {
        self.base.authorization_list.len()
    }

    /// The authorizations.
    pub fn authorization_list(&self) -> (r: &Vec<Authorization>)
        ensures
            r@ == self.base@.authorization_list,
    {
        &self.base.authorization_list
    }
}

/// The interpreter's own form of the base fields. Its values are carried through.
#[verifier::external_type_specification]
#[verifier::external_body]
pub struct ExRevmTxEnv(RevmTxEnv);

/// The builder of the interpreter's base fields. Its values are carried through.
#[verifier::external_type_specification]
#[verifier::external_body]
pub struct ExTxEnvBuilder(TxEnvBuilder);

/// Why a builder refused its fields. Its values are carried through.
#[verifier::external_type_specification]
#[verifier::external_body]
pub struct ExTxEnvBuildError(TxEnvBuildError);

/// `revm::context::tx::TxEnvBuilder::new` makes a builder with default values. What it holds
/// is not stated.
pub assume_specification[ TxEnvBuilder::new ]() -> (r: TxEnvBuilder)
;

/// `revm::context::tx::TxEnvBuilder::build_fill` makes base fields, with defaults where a
/// field is missing. What they hold is not stated.
pub assume_specification[ TxEnvBuilder::build_fill ](builder: TxEnvBuilder) -> (r: RevmTxEnv)
;

/// `revm::context::tx::TxEnvBuilder::build` makes base fields, or tells which field is
/// missing. What they hold, and when a builder is refused, is not stated.
pub assume_specification[ TxEnvBuilder::build ](builder: TxEnvBuilder) -> (r: Result<
    RevmTxEnv,
    TxEnvBuildError,
>)
;

/// What `make` makes of `from`.
pub(crate) fn made<A, B, F: FnOnce(A) -> B>(from: A, make: F) -> (r: B)
    requires
        call_requires(make, (from,)),
    ensures
        call_ensures(make, (from,), r),
{
    make(from)
}

/// What `make` makes.
fn made_new<B, F: FnOnce() -> B>(make: F) -> (r: B)
    requires
        call_requires(make, ()),
    ensures
        call_ensures(make, (), r),
{
    make()
}

impl ArbTransaction<RevmTxEnv> {
    /// A builder with default values.
    pub fn builder() -> (r: ArbTransactionBuilder)
        ensures
            call_ensures(TxEnvBuilder::new, (), r.start()),
    {
        ArbTransactionBuilder::new()
    }
}

/// Builder of transactions, from a builder of their base fields.
#[derive(Debug)]
pub struct ArbTransactionBuilder {
    base: TxEnvBuilder,
}

impl ArbTransactionBuilder {
    /// The builder of the base fields.
    pub closed spec fn start(self) -> TxEnvBuilder {
        self.base
    }

    /// A builder with default values.
    pub fn new() -> (r: ArbTransactionBuilder)
        ensures
            call_ensures(TxEnvBuilder::new, (), r.start()),
    {
        ArbTransactionBuilder { base: made_new(TxEnvBuilder::new) }
    }

    /// The same with another builder of the base fields.
    pub fn base(self, base: TxEnvBuilder) -> (r: ArbTransactionBuilder)
        ensures
            r.start() == base,
    {
        ArbTransactionBuilder { base }
    }

    /// The transaction with the base fields that the builder fills up; no extension is set.
    pub fn build_fill(self) -> (r: ArbTransaction<RevmTxEnv>)
        ensures
            call_ensures(TxEnvBuilder::build_fill, (self.start(),), r.base),
            r.is_bare(),
    {
        ArbTransaction::new(made(self.base, TxEnvBuilder::build_fill))
    }

    /// The transaction with the base fields that the builder accepts, or its error; no
    /// extension is set.
    pub fn build(self) -> (r: Result<ArbTransaction<RevmTxEnv>, TxEnvBuildError>)
        ensures
            match r {
                Ok(tx) => call_ensures(TxEnvBuilder::build, (self.start(),), Ok(tx.base))
                    && tx.is_bare(),
                Err(e) => call_ensures(TxEnvBuilder::build, (self.start(),), Err(e)),
            },
    {
        match made(self.base, TxEnvBuilder::build) {
            Ok(base) => Ok(ArbTransaction::new(base)),
            Err(e) => Err(e),
        }
    }
}

impl Default for ArbTransactionBuilder {
    fn default() -> (r: ArbTransactionBuilder)
        ensures
            call_ensures(TxEnvBuilder::new, (), r.start()),
    {
        ArbTransactionBuilder::new()
    }
}

/// The price that execution sees is the smaller of the transaction's gas price and the base fee,
/// whatever its type, and whether or not it has a priority fee.
pub proof fn lemma_price_is_clamped(tx: ArbTransaction<TxEnv>, base_fee: u128, r: u128)
    requires
        call_ensures(ArbTransaction::<TxEnv>::effective_gas_price, (&tx, base_fee), r),
    ensures
        tx.base.gas_price <= base_fee ==> r == tx.base.gas_price,
        tx.base.gas_price >= base_fee ==> r == base_fee,
{
}

/// On a chain that collects tips a transaction never pays more than its gas price. It pays just
/// that where it is of a type before the dynamic fee or has no priority fee, or where the base fee
/// and the priority fee together reach it; else it pays the two together.
pub proof fn lemma_tipped_price(tx: TxEnv, base_fee: u128, r: u128)
    requires
        call_ensures(TxEnv::effective_gas_price, (&tx, base_fee), r),
    ensures
        r <= tx.gas_price,
        tx.tx_type <= 1 ==> r == tx.gas_price,
        tx.tx_type > 1 ==> match tx.gas_priority_fee {
            None => r == tx.gas_price,
            Some(tip) => r == tx.gas_price && base_fee + tip >= tx.gas_price || r == base_fee + tip,
        },
{
}

/// Lowering succeeds exactly where the sender is known, and else reports why it is not. It keeps
/// every field of the envelope, every item of its lists in order, its hash and its bytes; missing
/// lists are empty, a missing gas price is the largest fee, a missing blob fee is zero, and there
/// is no hint.
pub proof fn lemma_lowering_keeps_the_envelope(
    tx: ArbTxEnvelope,
    r: Result<ArbTransaction<TxEnv>, TxConversionError>,
)
    requires
        call_ensures(arb_envelope_to_tx_env, (&tx,), r),
    ensures
        r is Ok <==> tx.sender is Ok,
        r matches Err(e) ==> (tx.sender matches Err(reason) && e.text()
            == "failed to recover transaction sender: "@ + reason@),
        r matches Ok(t) ==> {
            &&& tx.sender == Ok::<Address, String>(t.base.caller)
            &&& t.base.tx_type == tx.ty
            &&& t.base.gas_limit == tx.gas_limit
            &&& tx.gas_price matches Some(price) ==> t.base.gas_price == price
            &&& tx.gas_price is None ==> t.base.gas_price == tx.max_fee_per_gas
            &&& t.base.kind == tx.kind
            &&& t.base.value == tx.value
            &&& t.base.data@ == tx.input@
            &&& t.base.nonce == tx.nonce
            &&& t.base.chain_id == tx.chain_id
            &&& t.base.gas_priority_fee == tx.max_priority_fee_per_gas
            &&& tx.max_fee_per_blob_gas matches Some(fee) ==> t.base.max_fee_per_blob_gas == fee
            &&& tx.max_fee_per_blob_gas is None ==> t.base.max_fee_per_blob_gas == 0
            &&& t.retry_meta == tx.retry
            &&& t.tx_hash == Some(tx.hash)
            &&& t.encoded_2718 matches Some(bytes) && bytes@ == tx.encoded_2718@
            &&& t.prepared_poster_compression is None
        },
        r matches Ok(t) ==> match tx.blob_versioned_hashes {
            Some(hashes) => t.base.blob_hashes@ == hashes@,
            None => t.base.blob_hashes@.len() == 0,
        },
{
}

/// Lowering keeps every authorization, in order: as many as the envelope has, each signed as it is
/// there.
pub proof fn lemma_lowering_keeps_authorizations(
    tx: ArbTxEnvelope,
    r: Result<ArbTransaction<TxEnv>, TxConversionError>,
)
    requires
        call_ensures(arb_envelope_to_tx_env, (&tx,), r),
    ensures
        r matches Ok(t) ==> match tx.authorization_list {
            Some(items) => {
                &&& t.base.authorization_list@.len() == items@.len()
                &&& forall|i: int|
                    0 <= i < items@.len() ==> #[trigger] t.base.authorization_list@[i]
                        == Authorization::Signed(items@[i])
            },
            None => t.base.authorization_list@.len() == 0,
        },
{
}

/// Where two access lists have the same contents, they have as many items, each with the same
/// account and the same storage slots.
proof fn lemma_access_contents(a: Seq<AccessListItem>, b: Seq<AccessListItem>)
    requires
        access_contents(a) == access_contents(b),
    ensures
        a.len() == b.len(),
        forall|i: int|
            0 <= i < a.len() ==> (#[trigger] a[i]).address == b[i].address && a[i].storage_keys@
                == b[i].storage_keys@,
{
    assert(access_contents(a).len() == a.len());
    assert(access_contents(b).len() == b.len());
    assert forall|i: int| 0 <= i < a.len() implies (#[trigger] a[i]).address == b[i].address
        && a[i].storage_keys@ == b[i].storage_keys@ by {
        assert(access_contents(a)[i] == access_contents(b)[i]);
    }
}

/// Lowering keeps the access list: as many items as the envelope has, in order, each with its
/// account and all of its storage slots.
pub proof fn lemma_lowering_keeps_accesses(
    tx: ArbTxEnvelope,
    r: Result<ArbTransaction<TxEnv>, TxConversionError>,
)
    requires
        call_ensures(arb_envelope_to_tx_env, (&tx,), r),
    ensures
        r matches Ok(t) ==> match tx.access_list {
            Some(items) => {
                &&& t.base.access_list@.len() == items@.len()
                &&& forall|i: int|
                    0 <= i < items@.len() ==> (#[trigger] t.base.access_list@[i]).address
                        == items@[i].address && t.base.access_list@[i].storage_keys@
                        == items@[i].storage_keys@
            },
            None => t.base.access_list@.len() == 0,
        },
{
    if let Ok(t) = r {
        assert(access_contents(t.base.access_list@).len() == t.base.access_list@.len());
        if let Some(items) = tx.access_list {
            lemma_access_contents(t.base.access_list@, items@);
        }
    }
}

/// A transaction that sets nothing calls the zero address on chain 1 with the default gas limit,
/// and has none of the extensions; a system call differs from it in its sender, its target, its
/// data and its gas limit alone.
pub proof fn lemma_default_and_system_transactions(
    tx: ArbTransaction<TxEnv>,
    caller: Address,
    target: Address,
    data: Bytes,
    system: ArbTransaction<TxEnv>,
)
    requires
        call_ensures(<ArbTransaction<TxEnv> as Default>::default, (), tx),
        call_ensures(
            ArbTransaction::<TxEnv>::new_system_tx_with_caller,
            (caller, target, data),
            system,
        ),
    ensures
        tx.base.caller@ == 0,
        tx.base.gas_limit == 16_777_216,
        tx.base.kind matches TxKind::Call(zero) && zero@ == 0,
        tx.base.data@.len() == 0,
        system.base.caller == caller,
        system.base.gas_limit == 31_566_720,
        system.base.kind == TxKind::Call(target),
        system.base.data@ == data@,
        forall|t: ArbTransaction<TxEnv>|
            t == tx || t == system ==> {
                &&& #[trigger] t.base.tx_type == 0
                &&& t.base.gas_price == 0
                &&& t.base.value@ == 0
                &&& t.base.nonce == 0
                &&& t.base.chain_id == Some(1u64)
                &&& t.base.access_list@.len() == 0
                &&& t.base.gas_priority_fee is None
                &&& t.base.blob_hashes@.len() == 0
                &&& t.base.max_fee_per_blob_gas == 0
                &&& t.base.authorization_list@.len() == 0
                &&& t.retry_meta is None
                &&& t.tx_hash is None
                &&& t.encoded_2718 is None
                &&& t.prepared_poster_compression is None
            },
{
    assert(access_contents(tx.base.access_list@).len() == tx.base.access_list@.len());
    assert(access_contents(system.base.access_list@).len() == system.base.access_list@.len());
}

/// Whether two transactions have the same base fields, each compared by itself.
pub open spec fn same_fields(a: TxEnv, b: TxEnv) -> bool {
    &&& a.tx_type == b.tx_type
    &&& a.caller == b.caller
    &&& a.gas_limit == b.gas_limit
    &&& a.gas_price == b.gas_price
    &&& a.kind == b.kind
    &&& a.value == b.value
    &&& a.data@ == b.data@
    &&& a.nonce == b.nonce
    &&& a.chain_id == b.chain_id
    &&& a.access_list@.len() == b.access_list@.len()
    &&& forall|i: int|
        0 <= i < a.access_list@.len() ==> (#[trigger] a.access_list@[i]).address
            == b.access_list@[i].address && a.access_list@[i].storage_keys@
            == b.access_list@[i].storage_keys@
    &&& a.gas_priority_fee == b.gas_priority_fee
    &&& a.blob_hashes@ == b.blob_hashes@
    &&& a.max_fee_per_blob_gas == b.max_fee_per_blob_gas
    &&& a.authorization_list@ == b.authorization_list@
}

/// Two transactions are equal exactly where all of their base fields are, their retry metadata,
/// their hashes and their bytes; a clone is equal to what it is a clone of.
pub proof fn lemma_equality_is_that_of_the_fields(
    a: ArbTransaction<TxEnv>,
    b: ArbTransaction<TxEnv>,
    same: bool,
    copy: TxEnv,
)
    requires
        call_ensures(<ArbTransaction<TxEnv> as PartialEq>::eq, (&a, &b), same),
        call_ensures(<TxEnv as Clone>::clone, (&a.base,), copy),
    ensures
        same <==> {
            &&& same_fields(a.base, b.base)
            &&& a.retry_meta == b.retry_meta
            &&& a.tx_hash == b.tx_hash
            &&& match (a.encoded_2718, b.encoded_2718) {
                (Some(x), Some(y)) => x@ == y@,
                (None, None) => true,
                _ => false,
            }
        },
        same_fields(copy, a.base),
{
    lemma_same_fields(a.base, b.base);
    lemma_same_fields(copy, a.base);
}

/// The base fields are the same exactly where what they hold is.
proof fn lemma_same_fields(a: TxEnv, b: TxEnv)
    ensures
        a@ == b@ <==> same_fields(a, b),
{
    if a@ == b@ {
        lemma_access_contents(a.access_list@, b.access_list@);
    }
    if same_fields(a, b) {
        assert(access_contents(a.access_list@) =~= access_contents(b.access_list@));
    }
}

/// Reading a field gives that field.
pub proof fn lemma_fields_are_read(tx: ArbTransaction<TxEnv>)
    ensures
        forall|r: u8| call_ensures(ArbTransaction::<TxEnv>::tx_type, (&tx,), r) ==> r
            == tx.base.tx_type,
        forall|r: Address| call_ensures(ArbTransaction::<TxEnv>::caller, (&tx,), r) ==> r
            == tx.base.caller,
        forall|r: u64| call_ensures(ArbTransaction::<TxEnv>::gas_limit, (&tx,), r) ==> r
            == tx.base.gas_limit,
        forall|r: U256| call_ensures(ArbTransaction::<TxEnv>::value, (&tx,), r) ==> r
            == tx.base.value,
        forall|r: &Bytes| call_ensures(ArbTransaction::<TxEnv>::input, (&tx,), r) ==> r@
            == tx.base.data@,
        forall|r: u64| call_ensures(ArbTransaction::<TxEnv>::nonce, (&tx,), r) ==> r
            == tx.base.nonce,
        forall|r: TxKind| call_ensures(ArbTransaction::<TxEnv>::kind, (&tx,), r) ==> r
            == tx.base.kind,
        forall|r: Option<u64>| call_ensures(ArbTransaction::<TxEnv>::chain_id, (&tx,), r) ==> r
            == tx.base.chain_id,
        forall|r: Option<u128>|
            call_ensures(ArbTransaction::<TxEnv>::max_priority_fee_per_gas, (&tx,), r) ==> r
                == tx.base.gas_priority_fee,
        forall|r: u128| call_ensures(ArbTransaction::<TxEnv>::max_fee_per_gas, (&tx,), r) ==> r
            == tx.base.gas_price,
        forall|r: u128| call_ensures(ArbTransaction::<TxEnv>::gas_price, (&tx,), r) ==> r
            == tx.base.gas_price,
        forall|r: &[B256]|
            call_ensures(ArbTransaction::<TxEnv>::blob_versioned_hashes, (&tx,), r) ==> r@
                == tx.base.blob_hashes@,
        forall|r: u128| call_ensures(ArbTransaction::<TxEnv>::max_fee_per_blob_gas, (&tx,), r) ==> r
            == tx.base.max_fee_per_blob_gas,
        forall|r: usize|
            call_ensures(ArbTransaction::<TxEnv>::authorization_list_len, (&tx,), r) ==> r
                == tx.base.authorization_list@.len(),
        forall|r: &Vec<Authorization>|
            call_ensures(ArbTransaction::<TxEnv>::authorization_list, (&tx,), r) ==> r@
                == tx.base.authorization_list@,
        forall|r: &Vec<AccessListItem>| #[trigger]
            call_ensures(ArbTransaction::<TxEnv>::access_list, (&tx,), r) ==> r@.len()
                == tx.base.access_list@.len() && (forall|i: int|
                0 <= i < r@.len() ==> (#[trigger] r@[i]).address == tx.base.access_list@[i].address
                    && r@[i].storage_keys@ == tx.base.access_list@[i].storage_keys@),
        tx.fields() == tx.base@,
        tx.canonical() is Some <==> tx.encoded_2718 is Some,
        tx.encoded_2718 matches Some(bytes) ==> tx.canonical() == Some(bytes@),
{
    assert forall|r: &Vec<AccessListItem>| #[trigger]
        call_ensures(ArbTransaction::<TxEnv>::access_list, (&tx,), r) implies r@.len()
        == tx.base.access_list@.len() && (forall|i: int|
        0 <= i < r@.len() ==> (#[trigger] r@[i]).address == tx.base.access_list@[i].address
            && r@[i].storage_keys@ == tx.base.access_list@[i].storage_keys@) by {
        lemma_access_contents(r@, tx.base.access_list@);
    }
}

} // verus!
