//! The cost of posting a transaction's data on the parent chain.
//!
//! Only the transactions of batch-poster blocks pay it. The transaction bytes are
//! compressed, every compressed byte counts sixteen calldata units, and the units are
//! priced, turned into gas at the transaction's gas price, and charged as that gas.
use crate::bytes::{strip_leading_zeros, to_be_bytes};
use crate::compression::{
    compress, Dictionary, HitCounter, PreparedPosterCompression, DEFAULT_WINDOW_SIZE,
};
use crate::constants::{
    batch_poster_address, ARBITRUM_DEPOSIT_TX_TYPE, ARBITRUM_INTERNAL_TX_TYPE,
    ARBITRUM_RETRY_TX_TYPE, ARBITRUM_SUBMIT_RETRYABLE_TX_TYPE,
};
use crate::primitives::{Address, Bytes, TxKind};
use crate::rlp::{rlp_encode_list, rlp_encode_payload, rlp_write_length};
use crate::transaction::{made, ArbTxTr, TxEnv, TxModel};
use crate::words::U256;
use vstd::prelude::*;

verus! {

/// Calldata units per compressed byte.
pub const TX_DATA_NON_ZERO_GAS: u64 = 16;

/// The encoding of an empty list.
pub const EMPTY_LIST: u8 = 0xc0;

/// Whether transactions of a type pay for their data.
pub open spec fn pays_for_data(tx_type: u8) -> bool {
    &&& tx_type != ARBITRUM_INTERNAL_TX_TYPE
    &&& tx_type != ARBITRUM_DEPOSIT_TX_TYPE
    &&& tx_type != ARBITRUM_SUBMIT_RETRYABLE_TX_TYPE
    &&& tx_type != ARBITRUM_RETRY_TX_TYPE
}

/// Whether transactions of a type pay for their data; the protocol's own types do not.
pub fn tx_type_has_poster_costs(tx_type: u8) -> (r: bool)
    ensures
        r == pays_for_data(tx_type),
{
    tx_type != ARBITRUM_INTERNAL_TX_TYPE && tx_type != ARBITRUM_DEPOSIT_TX_TYPE && tx_type
        != ARBITRUM_SUBMIT_RETRYABLE_TX_TYPE && tx_type != ARBITRUM_RETRY_TX_TYPE
}

/// The bytes of the destination: none for a contract creation.
pub open spec fn destination(kind: TxKind) -> Seq<u8> {
    match kind {
        TxKind::Create => Seq::empty(),
        TxKind::Call(address) => address.bytes(),
    }
}

/// The number of an optional field, zero where it is missing.
pub open spec fn or_zero<N>(field: Option<N>, number: spec_fn(N) -> nat) -> nat {
    match field {
        Some(n) => number(n),
        None => 0,
    }
}

/// `n` zero bytes.
pub open spec fn zero_bytes(n: nat) -> Seq<u8> {
    Seq::new(n, |i: int| 0u8)
}

/// The items that the fallback encoding of a transaction lists up to its data, with numbers
/// without leading zeros.
pub open spec fn fallback_head(tx: TxModel) -> Seq<Seq<u8>> {
    let chain_id = crate::bytes::be_min(or_zero(tx.chain_id, |n: u64| n as nat));
    let nonce = crate::bytes::be_min(tx.nonce as nat);
    let gas_price = crate::bytes::be_min(tx.gas_price as nat);
    let gas_limit = crate::bytes::be_min(tx.gas_limit as nat);
    let to = destination(tx.kind);
    let value = crate::bytes::be_min(tx.value@);
    if tx.tx_type == 2 {
        let priority = crate::bytes::be_min(or_zero(tx.gas_priority_fee, |n: u128| n as nat));
        seq![chain_id, nonce, priority, gas_price, gas_limit, to, value, tx.data]
    } else if tx.tx_type == 1 {
        seq![chain_id, nonce, gas_price, gas_limit, to, value, tx.data]
    } else {
        seq![nonce, gas_price, gas_limit, to, value, tx.data]
    }
}

/// The items of a signature of zeros.
pub open spec fn zero_signature() -> Seq<Seq<u8>> {
    seq![zero_bytes(1), zero_bytes(32), zero_bytes(32)]
}

/// What a typed transaction lists: its items up to the data, an empty list of accesses, and
/// the signature.
pub open spec fn typed_payload(head: Seq<Seq<u8>>, signature: Seq<Seq<u8>>) -> Seq<u8> {
    crate::rlp::rlp_payload(head) + seq![EMPTY_LIST] + crate::rlp::rlp_payload(signature)
}

/// The envelope of a typed transaction: the type, then the list.
pub open spec fn typed_envelope(tx_type: u8, payload: Seq<u8>) -> Seq<u8> {
    seq![tx_type] + crate::rlp::rlp_header(payload.len(), 0xc0) + payload
}

/// The encoding that stands for a transaction whose canonical bytes are unknown: the envelope
/// of a typed transaction, or the plain list of a legacy one, with a signature of zeros and
/// without accesses. Types that do not pay for their data have none.
pub open spec fn fallback_encoding(tx: TxModel) -> Seq<u8> {
    if !pays_for_data(tx.tx_type) {
        Seq::empty()
    } else if tx.tx_type == 1 || tx.tx_type == 2 {
        typed_envelope(tx.tx_type, typed_payload(fallback_head(tx), zero_signature()))
    } else {
        crate::rlp::rlp_list(fallback_head(tx) + zero_signature())
    }
}

/// The bytes of a transaction that its data cost is computed from.
pub open spec fn poster_bytes(tx: TxModel, canonical: Option<Seq<u8>>) -> Seq<u8> {
    if !pays_for_data(tx.tx_type) {
        Seq::empty()
    } else {
        match canonical {
            Some(bytes) => bytes,
            None => fallback_encoding(tx),
        }
    }
}

/// A number of up to sixteen bytes without leading zeros.
fn trimmed(x: u128, width: usize) -> (r: Vec<u8>)
    requires
        x < crate::bytes::pow256(width as nat),
    ensures
        r@ == crate::bytes::be_min(x as nat),
{
    let raw = to_be_bytes(x, width);
    let mut out: Vec<u8> = Vec::new();
    out.extend_from_slice(strip_leading_zeros(raw.as_slice()));
    assert(out@ =~= crate::bytes::be_min(x as nat));
    out
}

/// Every 128-bit number fits sixteen bytes, and every 64-bit number eight.
proof fn lemma_widths(x: u128, y: u64)
    ensures
        x < crate::bytes::pow256(16),
        y < crate::bytes::pow256(8),
{
    reveal_with_fuel(crate::bytes::pow256, 17);
}

/// Encodes the envelope of a typed transaction without accesses.
fn encode_typed(tx_type: u8, head: &[&[u8]], signature: &[&[u8]]) -> (r: Vec<u8>)
    ensures
        r@ == typed_envelope(
            tx_type,
            typed_payload(crate::rlp::contents(head@), crate::rlp::contents(signature@)),
        ),
{
    let mut payload = rlp_encode_payload(head);
    payload.push(EMPTY_LIST);
    let rest = rlp_encode_payload(signature);
    payload.extend_from_slice(rest.as_slice());
    assert(payload@ =~= typed_payload(
        crate::rlp::contents(head@),
        crate::rlp::contents(signature@),
    ));
    let mut out: Vec<u8> = vec![tx_type];
    rlp_write_length(&mut out, payload.len(), 0xc0);
    out.extend_from_slice(payload.as_slice());
    assert(out@ =~= typed_envelope(tx_type, payload@));
    out
}

/// Encodes a transaction whose canonical bytes are unknown.
///
/// The signature is all zeros, and the access list is empty. Types that do not pay for their
/// data encode to nothing.
pub fn encode_tx_for_l1_cost(tx: &TxEnv) -> (r: Vec<u8>)
    ensures
        r@ == fallback_encoding(tx@),
{
    if !tx_type_has_poster_costs(tx.tx_type) {
        return Vec::new();
    }
    let to = match tx.kind {
        TxKind::Call(address) => address.to_vec(),
        TxKind::Create => Vec::new(),
    };
    let chain_id_number: u64 = match tx.chain_id {
        Some(n) => n,
        None => 0,
    };
    let priority_number: u128 = match tx.gas_priority_fee {
        Some(n) => n,
        None => 0,
    };
    proof {
        lemma_widths(tx.gas_price, tx.gas_limit);
        lemma_widths(priority_number, tx.nonce);
        lemma_widths(0, chain_id_number);
    }
    let value_raw = tx.value.to_be_vec();
    let value = strip_leading_zeros(value_raw.as_slice());
    let gas_price = trimmed(tx.gas_price, 16);
    let gas_limit = trimmed(tx.gas_limit as u128, 8);
    let nonce = trimmed(tx.nonce as u128, 8);
    let chain_id = trimmed(chain_id_number as u128, 8);
    let zero: Vec<u8> = vec![0u8; 1];
    let zeros: Vec<u8> = vec![0u8; 32];
    let signature: Vec<&[u8]> = vec![zero.as_slice(), zeros.as_slice(), zeros.as_slice()];
    proof {
        assert(zero@ =~= zero_bytes(1));
        assert(zeros@ =~= zero_bytes(32));
        assert(to@ =~= destination(tx.kind));
        assert(crate::rlp::contents(signature@) =~= zero_signature());
    }
    if tx.tx_type == 2 {
        let priority = trimmed(priority_number, 16);
        let head: Vec<&[u8]> = vec![
            chain_id.as_slice(),
            nonce.as_slice(),
            priority.as_slice(),
            gas_price.as_slice(),
            gas_limit.as_slice(),
            to.as_slice(),
            value,
            tx.data.as_slice(),
        ];
        assert(crate::rlp::contents(head@) =~= fallback_head(tx@));
        encode_typed(2, head.as_slice(), signature.as_slice())
    } else if tx.tx_type == 1 {
        let head: Vec<&[u8]> = vec![
            chain_id.as_slice(),
            nonce.as_slice(),
            gas_price.as_slice(),
            gas_limit.as_slice(),
            to.as_slice(),
            value,
            tx.data.as_slice(),
        ];
        assert(crate::rlp::contents(head@) =~= fallback_head(tx@));
        encode_typed(1, head.as_slice(), signature.as_slice())
    } else {
        let items: Vec<&[u8]> = vec![
            nonce.as_slice(),
            gas_price.as_slice(),
            gas_limit.as_slice(),
            to.as_slice(),
            value,
            tx.data.as_slice(),
            zero.as_slice(),
            zeros.as_slice(),
            zeros.as_slice(),
        ];
        assert(crate::rlp::contents(items@) =~= fallback_head(tx@) + zero_signature());
        let mut out: Vec<u8> = Vec::new();
        let ghost empty = out@;
        rlp_encode_list(&mut out, items.as_slice());
        assert(empty + crate::rlp::rlp_list(fallback_head(tx@) + zero_signature())
            =~= fallback_encoding(tx@));
        out
    }
}

/// The bytes of a transaction for compression: the canonical bytes where they are known,
/// else the fallback encoding, and nothing for types that do not pay for their data.
pub fn encode_tx_bytes<T: ArbTxTr>(tx: &T) -> (r: Vec<u8>)
    ensures
        r@ == poster_bytes(tx.fields(), tx.canonical()),
{
    if !tx_type_has_poster_costs(tx.base_fields().tx_type) {
        return Vec::new();
    }
    if let Some(encoded) = tx.encoded_2718_bytes() {
        let mut owned: Vec<u8> = Vec::new();
        owned.extend_from_slice(encoded);
        assert(owned@ =~= encoded@);
        return owned;
    }
    encode_tx_for_l1_cost(tx.base_fields())
}

/// The same bytes as `encode_tx_bytes`, without copying where the transaction shares
/// ownership of its canonical bytes: then they are the ones that it shares.
pub fn poster_tx_bytes<T: ArbTxTr>(tx: &T) -> (r: Bytes)
    ensures
        r@ == poster_bytes(tx.fields(), tx.canonical()),
        pays_for_data(tx.fields().tx_type) ==> exists|shared: Option<Bytes>| #[trigger]
            call_ensures(T::encoded_2718_shared, (tx,), shared) && (shared matches Some(bytes)
                ==> r == bytes),
{
    if !tx_type_has_poster_costs(tx.base_fields().tx_type) {
        return Bytes::new();
    }
    match made(tx, T::encoded_2718_shared) {
        Some(shared) => shared,
        None => Bytes::from_vec(encode_tx_bytes(tx)),
    }
}

/// Result of the poster-cost computation.
#[derive(Clone, Copy, Debug, PartialEq, Eq, Structural)]
pub struct PosterInfo {
    /// Cost in wei of posting the transaction's bytes.
    pub poster_cost: U256,
    /// Calldata units used.
    pub calldata_units: u64,
    /// Gas that the cost is worth at the gas price, rounded down.
    pub poster_gas: u64,
    /// Fee in wei that is charged: the gas at the gas price.
    pub poster_fee: U256,
}

/// The smaller of two numbers.
pub open spec fn at_most(x: nat, limit: nat) -> nat {
    if x <= limit {
        x
    } else {
        limit
    }
}

/// The calldata units of `compressed_len` compressed bytes.
pub open spec fn units_of(compressed_len: nat) -> nat {
    at_most(16 * compressed_len, u64::MAX as nat)
}

/// The cost of `compressed_len` compressed bytes.
pub open spec fn cost_of(compressed_len: nat, price_per_unit: nat) -> nat {
    at_most(price_per_unit * units_of(compressed_len), crate::words::word_max())
}

/// The gas that a cost is worth at a gas price.
pub open spec fn gas_worth(cost: nat, gas_price: nat) -> nat {
    if gas_price == 0 {
        0
    } else {
        at_most(cost / gas_price, u64::MAX as nat)
    }
}

/// The fee for the gas that a cost is worth.
pub open spec fn fee_of(cost: nat, gas_price: nat) -> nat {
    at_most(gas_price * gas_worth(cost, gas_price), crate::words::word_max())
}

impl PosterInfo {
    /// Whether this is the information on `compressed_len` compressed bytes.
    pub open spec fn prices(self, compressed_len: nat, price_per_unit: nat, gas_price: nat) -> bool {
        &&& self.calldata_units == units_of(compressed_len)
        &&& self.poster_cost@ == cost_of(compressed_len, price_per_unit)
        &&& self.poster_gas == gas_worth(self.poster_cost@, gas_price)
        &&& self.poster_fee@ == fee_of(self.poster_cost@, gas_price)
    }

    /// Whether nothing is charged and nothing was counted.
    pub open spec fn is_zero(self) -> bool {
        &&& self.calldata_units == 0
        &&& self.poster_cost@ == 0
        &&& self.poster_gas == 0
        &&& self.poster_fee@ == 0
    }
}

/// The length that bytes are priced by: that of their compression at a level, or their own
/// where the compression fails.
pub open spec fn priced_len(tx_bytes: Seq<u8>, level: u32) -> nat {
    match crate::compression::compressed(tx_bytes, level, DEFAULT_WINDOW_SIZE, Dictionary::Empty) {
        Some(stream) => stream.len(),
        None => tx_bytes.len(),
    }
}

/// Whether the transactions of a block with this beneficiary pay for these bytes.
pub open spec fn is_charged(tx_bytes: Seq<u8>, coinbase: Address) -> bool {
    coinbase == crate::constants::batch_poster() && tx_bytes.len() > 0
}

/// Prices `compressed_len` compressed bytes.
pub fn poster_info_from_compressed_len(
    compressed_len: u64,
    price_per_unit: U256,
    gas_price: U256,
) -> (r: PosterInfo)
    ensures
        r.prices(compressed_len as nat, price_per_unit@, gas_price@),
{
    let calldata_units: u64 = match TX_DATA_NON_ZERO_GAS.checked_mul(compressed_len) {
        Some(units) => units,
        None => u64::MAX,
    };
    let poster_cost = price_per_unit.saturating_mul(U256::from_u64(calldata_units));
    let poster_gas: u64 = if gas_price.is_zero() {
        0
    } else {
        poster_cost.div_floor(gas_price).saturating_u64()
    };
    let poster_fee = gas_price.saturating_mul(U256::from_u64(poster_gas));
    PosterInfo { poster_cost, calldata_units, poster_gas, poster_fee }
}

/// The length that bytes are priced by.
pub fn compressed_len_or_fallback(tx_bytes: &[u8], brotli_level: u32) -> (r: u64)
    ensures
        r == priced_len(tx_bytes@, brotli_level),
{
    match compress(tx_bytes, brotli_level, DEFAULT_WINDOW_SIZE, &Dictionary::Empty) {
        Ok(value) => value.len() as u64,
        Err(_) => tx_bytes.len() as u64,
    }
}

/// Prices the posting of a transaction's bytes in a block with the given beneficiary.
///
/// Only batch-poster blocks charge for it, and no bytes cost nothing.
pub fn compute_poster_info(
    tx_bytes: &[u8],
    coinbase: Address,
    price_per_unit: U256,
    gas_price: U256,
    brotli_level: u32,
) -> (r: PosterInfo)
    ensures
        is_charged(tx_bytes@, coinbase) ==> r.prices(
            priced_len(tx_bytes@, brotli_level),
            price_per_unit@,
            gas_price@,
        ),
        !is_charged(tx_bytes@, coinbase) ==> r.is_zero(),
{
    let mut hits = HitCounter::new();
    compute_poster_info_with_prepared(
        tx_bytes,
        coinbase,
        price_per_unit,
        gas_price,
        brotli_level,
        None,
        &mut hits,
    )
}

/// Prices the posting of a transaction's bytes, taking their compressed length from
/// `prepared` where that is an exact match.
///
/// What is prepared never changes the result. A match that was consumed is counted in
/// `hits`; where nothing is charged, nothing is consumed.
pub fn compute_poster_info_with_prepared(
    tx_bytes: &[u8],
    coinbase: Address,
    price_per_unit: U256,
    gas_price: U256,
    brotli_level: u32,
    prepared: Option<&PreparedPosterCompression>,
    hits: &mut HitCounter,
) -> (r: PosterInfo)
    ensures
        is_charged(tx_bytes@, coinbase) ==> r.prices(
            priced_len(tx_bytes@, brotli_level),
            price_per_unit@,
            gas_price@,
        ),
        !is_charged(tx_bytes@, coinbase) ==> r.is_zero(),
        final(hits).count == crate::compression::counted(
            old(hits).count,
            is_charged(tx_bytes@, coinbase) && (prepared matches Some(p) && p.matches(
                tx_bytes@,
                brotli_level,
            )),
        ),
{
    if coinbase != batch_poster_address() || tx_bytes.len() == 0 {
        return PosterInfo {
            poster_cost: U256::zero(),
            calldata_units: 0,
            poster_gas: 0,
            poster_fee: U256::zero(),
        };
    }
    let consumed: Option<u64> = match prepared {
        Some(item) => item.compressed_len_for(tx_bytes, brotli_level, hits),
        None => None,
    };
    let compressed_len: u64 = match consumed {
        Some(len) => len,
        None => compressed_len_or_fallback(tx_bytes, brotli_level),
    };
    poster_info_from_compressed_len(compressed_len, price_per_unit, gas_price)
}

/// The protocol's own transactions are never charged, whatever envelope they carry.
pub proof fn lemma_protocol_types_cost_nothing(
    tx: TxModel,
    canonical: Option<Seq<u8>>,
    coinbase: Address,
)
    requires
        !pays_for_data(tx.tx_type),
    ensures
        poster_bytes(tx, canonical) == Seq::<u8>::empty(),
        !is_charged(poster_bytes(tx, canonical), coinbase),
{
}

/// Length and prices determine the information, so a prepared length never changes it.
pub proof fn lemma_prices_unique(
    a: PosterInfo,
    b: PosterInfo,
    compressed_len: nat,
    price_per_unit: nat,
    gas_price: nat,
)
    requires
        a.prices(compressed_len, price_per_unit, gas_price),
        b.prices(compressed_len, price_per_unit, gas_price),
    ensures
        a == b,
{
    crate::words::lemma_word_value(a.poster_cost, b.poster_cost);
    crate::words::lemma_word_value(a.poster_fee, b.poster_fee);
}

/// The fee never exceeds the cost. Where the gas is not cut off at the largest `u64`, it
/// falls short of the cost by less than the price of one gas.
pub proof fn lemma_fee_rounds_down(
    info: PosterInfo,
    compressed_len: nat,
    price_per_unit: nat,
    gas_price: nat,
)
    requires
        info.prices(compressed_len, price_per_unit, gas_price),
    ensures
        info.poster_fee@ <= info.poster_cost@,
        info.poster_fee@ == gas_price * info.poster_gas as nat,
        0 < gas_price && info.poster_gas < u64::MAX ==> info.poster_cost@ - info.poster_fee@
            < gas_price,
        gas_price == 0 ==> info.poster_fee@ == 0,
{
    let cost = info.poster_cost@;
    crate::words::lemma_word_value(info.poster_cost, info.poster_cost);
    let gas = info.poster_gas as nat;
    if gas_price == 0 {
        assert(gas_price * gas == 0) by (nonlinear_arith)
            requires
                gas_price == 0,
        ;
    } else {
        let q = cost / gas_price;
        assert(gas_price * q <= cost < gas_price * q + gas_price) by (nonlinear_arith)
            requires
                gas_price > 0,
                q == cost / gas_price,
        ;
        assert(gas_price * gas <= gas_price * q) by (nonlinear_arith)
            requires
                gas <= q,
        ;
    }
}

/// A longer compression never costs less: neither in units and wei, nor in gas, nor in the fee
/// that is charged.
pub proof fn lemma_cost_monotone(short: nat, long: nat, price_per_unit: nat, gas_price: nat)
    requires
        short <= long,
    ensures
        units_of(short) <= units_of(long),
        cost_of(short, price_per_unit) <= cost_of(long, price_per_unit),
        gas_worth(cost_of(short, price_per_unit), gas_price) <= gas_worth(
            cost_of(long, price_per_unit),
            gas_price,
        ),
        fee_of(cost_of(short, price_per_unit), gas_price) <= fee_of(
            cost_of(long, price_per_unit),
            gas_price,
        ),
{
    let m = units_of(short);
    let n = units_of(long);
    assert(price_per_unit * m <= price_per_unit * n) by (nonlinear_arith)
        requires
            m <= n,
    ;
    let c = cost_of(short, price_per_unit);
    let d = cost_of(long, price_per_unit);
    if gas_price > 0 {
        vstd::arithmetic::div_mod::lemma_div_is_ordered(c as int, d as int, gas_price as int);
    }
    let g = gas_worth(c, gas_price);
    let h = gas_worth(d, gas_price);
    assert(gas_price * g <= gas_price * h) by (nonlinear_arith)
        requires
            g <= h,
    ;
}

proof fn lemma_number_item(x: nat, y: nat)
    ensures
        crate::bytes::be_min(x) == crate::bytes::be_min(y) ==> x == y,
{
    crate::bytes::lemma_be_min(x);
    crate::bytes::lemma_be_min(y);
}

/// Two transactions of one type that pays for its data have the same fallback encoding
/// only where they agree in every field that the encoding lists.
pub proof fn lemma_fallback_encoding_injective(a: TxModel, b: TxModel)
    requires
        a.tx_type == b.tx_type,
        pays_for_data(a.tx_type),
        crate::rlp::lengths_fit(fallback_head(a)),
        crate::rlp::lengths_fit(fallback_head(b)),
        fallback_encoding(a).len() < crate::bytes::pow256(8),
        fallback_encoding(a) == fallback_encoding(b),
    ensures
        a.nonce == b.nonce,
        a.gas_price == b.gas_price,
        a.gas_limit == b.gas_limit,
        a.kind == b.kind,
        a.value@ == b.value@,
        a.data == b.data,
        a.tx_type == 1 || a.tx_type == 2 ==> or_zero(a.chain_id, |n: u64| n as nat) == or_zero(
            b.chain_id,
            |n: u64| n as nat,
        ),
        a.tx_type == 2 ==> or_zero(a.gas_priority_fee, |n: u128| n as nat) == or_zero(
            b.gas_priority_fee,
            |n: u128| n as nat,
        ),
{
    let xs = fallback_head(a);
    let ys = fallback_head(b);
    lemma_heads_agree(a, b);
    lemma_number_item(a.nonce as nat, b.nonce as nat);
    lemma_number_item(a.gas_price as nat, b.gas_price as nat);
    lemma_number_item(a.gas_limit as nat, b.gas_limit as nat);
    lemma_number_item(a.value@, b.value@);
    lemma_number_item(
        or_zero(a.chain_id, |n: u64| n as nat),
        or_zero(b.chain_id, |n: u64| n as nat),
    );
    lemma_number_item(
        or_zero(a.gas_priority_fee, |n: u128| n as nat),
        or_zero(b.gas_priority_fee, |n: u128| n as nat),
    );
    let at: int = if a.tx_type == 2 {
        5
    } else if a.tx_type == 1 {
        4
    } else {
        3
    };
    assert(xs[at] == destination(a.kind) && ys[at] == destination(b.kind));
    match (a.kind, b.kind) {
        (TxKind::Call(x), TxKind::Call(y)) => {
            crate::primitives::lemma_address_bytes(x, y);
        },
        (TxKind::Call(x), TxKind::Create) => {
            crate::primitives::lemma_address_bytes(x, x);
        },
        (TxKind::Create, TxKind::Call(y)) => {
            crate::primitives::lemma_address_bytes(y, y);
        },
        (TxKind::Create, TxKind::Create) => {},
    }
    assert(xs[at + 2] == a.data && ys[at + 2] == b.data);
    assert(xs[at + 1] == ys[at + 1]);
    assert(xs[at - 1] == ys[at - 1]);
    assert(xs[at - 2] == ys[at - 2]);
    assert(xs[at - 3] == ys[at - 3]);
    assert(xs[0] == ys[0]);
    assert(xs[1] == ys[1]);
}

/// What follows the data is the same in every encoding of a type, so the items before it agree
/// where the encodings do.
proof fn lemma_heads_agree(a: TxModel, b: TxModel)
    requires
        a.tx_type == b.tx_type,
        pays_for_data(a.tx_type),
        crate::rlp::lengths_fit(fallback_head(a)),
        crate::rlp::lengths_fit(fallback_head(b)),
        fallback_encoding(a).len() < crate::bytes::pow256(8),
        fallback_encoding(a) == fallback_encoding(b),
    ensures
        fallback_head(a) == fallback_head(b),
{
    let xs = fallback_head(a);
    let ys = fallback_head(b);
    let tail = zero_signature();
    if a.tx_type == 1 || a.tx_type == 2 {
        let p = typed_payload(xs, tail);
        let q = typed_payload(ys, tail);
        let end = seq![EMPTY_LIST] + crate::rlp::rlp_payload(tail);
        assert(crate::rlp::rlp_header(p.len(), 0xc0) + p =~= fallback_encoding(a).skip(1));
        assert(crate::rlp::rlp_header(q.len(), 0xc0) + q =~= fallback_encoding(b).skip(1));
        crate::rlp::lemma_header_prefix_free(p.len(), q.len(), 0xc0, p, q);
        assert(p =~= crate::rlp::rlp_payload(xs) + end);
        assert(q =~= crate::rlp::rlp_payload(ys) + end);
        let n = (p.len() - end.len()) as int;
        assert(p.take(n) =~= crate::rlp::rlp_payload(xs));
        assert(q.take(n) =~= crate::rlp::rlp_payload(ys));
        crate::rlp::lemma_payload_injective(xs, ys);
    } else {
        assert(crate::rlp::lengths_fit(tail)) by {
            reveal_with_fuel(crate::bytes::pow256, 9);
        }
        let us = xs + tail;
        let vs = ys + tail;
        assert(crate::rlp::lengths_fit(us) && crate::rlp::lengths_fit(vs));
        crate::rlp::lemma_list_injective(us, vs);
        assert(us.take(xs.len() as int) =~= xs);
        assert(vs.take(ys.len() as int) =~= ys);
    }
}

/// Every compressed byte counts sixteen units, however many there are: the units of `n` bytes are
/// sixteen times `n`, and the cost is the price of that many units. The gas is as much as the cost
/// pays for at the gas price, and the fee is the price of that gas. Only what does not fit is cut
/// off, at the largest number that does.
pub proof fn lemma_every_byte_counts_the_same(
    compressed_len: u64,
    price_per_unit: U256,
    gas_price: U256,
    r: PosterInfo,
)
    requires
        call_ensures(
            poster_info_from_compressed_len,
            (compressed_len, price_per_unit, gas_price),
            r,
        ),
    ensures
        16 * compressed_len <= u64::MAX ==> r.calldata_units == 16 * compressed_len,
        16 * compressed_len > u64::MAX ==> r.calldata_units == u64::MAX,
        price_per_unit@ * r.calldata_units as nat <= crate::words::word_max() ==> r.poster_cost@
            == price_per_unit@ * r.calldata_units as nat,
        price_per_unit@ * r.calldata_units as nat > crate::words::word_max() ==> r.poster_cost@
            == crate::words::word_max(),
        gas_price@ == 0 ==> r.poster_gas == 0 && r.poster_fee@ == 0,
        gas_price@ * r.poster_gas as nat <= r.poster_cost@,
        gas_price@ > 0 && r.poster_gas < u64::MAX ==> r.poster_cost@ < gas_price@ * (r.poster_gas
            as nat + 1),
        r.poster_fee@ == gas_price@ * r.poster_gas as nat,
{
    lemma_fee_rounds_down(r, compressed_len as nat, price_per_unit@, gas_price@);
    let g = gas_price@;
    let x = r.poster_gas as nat;
    assert(g * (x + 1) == g * x + g) by (nonlinear_arith);
}

/// Units and costs add up: what two compressions count and cost together is what one of both their
/// lengths does, and twice the price per unit is twice the cost, as long as nothing is cut off.
pub proof fn lemma_units_and_costs_add_up(
    m: u64,
    n: u64,
    both: u64,
    price_per_unit: U256,
    double_price: U256,
    gas_price: U256,
    x: PosterInfo,
    y: PosterInfo,
    z: PosterInfo,
    doubled: PosterInfo,
)
    requires
        both == m + n,
        16 * both <= u64::MAX,
        double_price@ == 2 * price_per_unit@,
        double_price@ * (16 * both as nat) <= crate::words::word_max(),
        call_ensures(poster_info_from_compressed_len, (m, price_per_unit, gas_price), x),
        call_ensures(poster_info_from_compressed_len, (n, price_per_unit, gas_price), y),
        call_ensures(poster_info_from_compressed_len, (both, price_per_unit, gas_price), z),
        call_ensures(poster_info_from_compressed_len, (both, double_price, gas_price), doubled),
    ensures
        z.calldata_units == x.calldata_units + y.calldata_units,
        z.poster_cost@ == x.poster_cost@ + y.poster_cost@,
        doubled.calldata_units == z.calldata_units,
        doubled.poster_cost@ == 2 * z.poster_cost@,
{
    lemma_every_byte_counts_the_same(m, price_per_unit, gas_price, x);
    lemma_every_byte_counts_the_same(n, price_per_unit, gas_price, y);
    lemma_every_byte_counts_the_same(both, price_per_unit, gas_price, z);
    lemma_every_byte_counts_the_same(both, double_price, gas_price, doubled);
    let p = price_per_unit@;
    let u = 16 * m as nat;
    let v = 16 * n as nat;
    assert(p * (u + v) == p * u + p * v) by (nonlinear_arith);
    assert((2 * p) * (u + v) == 2 * (p * (u + v))) by (nonlinear_arith);
}

/// Only transactions of the four types that the protocol itself makes are free of data costs.
pub proof fn lemma_protocol_types_are_free(tx_type: u8, r: bool)
    requires
        call_ensures(tx_type_has_poster_costs, (tx_type,), r),
    ensures
        !r <==> tx_type == 100 || tx_type == 104 || tx_type == 105 || tx_type == 106,
{
}

/// Only the blocks of the batch poster charge, and only for bytes that there are: then the bytes
/// are priced by the length of their compression at the level, with a window of 22 bits and room
/// for twice their number and a thousand and some more, or by their own length where there is no
/// such compression. Everywhere else everything is zero.
pub proof fn lemma_only_batch_poster_blocks_charge(
    tx_bytes: &[u8],
    coinbase: Address,
    price_per_unit: U256,
    gas_price: U256,
    brotli_level: u32,
    room: usize,
    len: u64,
    r: PosterInfo,
    priced: PosterInfo,
)
    requires
        call_ensures(
            compute_poster_info,
            (tx_bytes, coinbase, price_per_unit, gas_price, brotli_level),
            r,
        ),
        call_ensures(poster_info_from_compressed_len, (len, price_per_unit, gas_price), priced),
        room == 2 * tx_bytes@.len() + 1024 || room == isize::MAX && room < 2 * tx_bytes@.len()
            + 1024,
        room <= isize::MAX,
        len == match crate::compression::brotli_stream(tx_bytes@, brotli_level, 22, room) {
            Some(stream) => stream.len(),
            None => tx_bytes@.len(),
        },
    ensures
        coinbase@ == 0xa4b0_0000_0000_0000_0000_0073_6571_7565_6e63_6572nat && tx_bytes@.len() > 0
            ==> r == priced,
        coinbase@ != 0xa4b0_0000_0000_0000_0000_0073_6571_7565_6e63_6572nat || tx_bytes@.len() == 0
            ==> r.calldata_units == 0 && r.poster_cost@ == 0 && r.poster_gas == 0 && r.poster_fee@
            == 0,
{
    if coinbase@ == 0xa4b0_0000_0000_0000_0000_0073_6571_7565_6e63_6572nat && tx_bytes@.len() > 0 {
        crate::primitives::lemma_address_parts(coinbase);
        assert(coinbase == crate::constants::batch_poster());
        lemma_prices_unique(r, priced, len as nat, price_per_unit@, gas_price@);
    }
}

/// A hint never changes a price: whatever is prepared, and however often it was consumed, the
/// result is that without it.
pub proof fn lemma_hint_changes_no_price(
    tx_bytes: &[u8],
    coinbase: Address,
    price_per_unit: U256,
    gas_price: U256,
    brotli_level: u32,
    prepared: Option<&PreparedPosterCompression>,
    plain: PosterInfo,
)
    requires
        call_ensures(
            compute_poster_info,
            (tx_bytes, coinbase, price_per_unit, gas_price, brotli_level),
            plain,
        ),
    ensures
        forall|hits: &mut HitCounter, r: PosterInfo| #[trigger]
            call_ensures(
                compute_poster_info_with_prepared,
                (tx_bytes, coinbase, price_per_unit, gas_price, brotli_level, prepared, hits),
                r,
            ) ==> r == plain,
{
    assert forall|hits: &mut HitCounter, r: PosterInfo| #[trigger]
        call_ensures(
            compute_poster_info_with_prepared,
            (tx_bytes, coinbase, price_per_unit, gas_price, brotli_level, prepared, hits),
            r,
        ) implies r == plain by {
        if is_charged(tx_bytes@, coinbase) {
            let len = priced_len(tx_bytes@, brotli_level);
            lemma_prices_unique(r, plain, len, price_per_unit@, gas_price@);
        } else {
            crate::words::lemma_word_value(r.poster_cost, plain.poster_cost);
            crate::words::lemma_word_value(r.poster_fee, plain.poster_fee);
        }
    }
}

/// The payload with one more item.
proof fn lemma_payload_push(items: Seq<Seq<u8>>, item: Seq<u8>)
    ensures
        crate::rlp::rlp_payload(items.push(item)) == crate::rlp::rlp_payload(items)
            + crate::rlp::rlp_bytes(item),
{
    assert(items.push(item).drop_last() =~= items);
}

/// The encoding of a number: the string of its shortest form.
pub open spec fn number_item(x: nat) -> Seq<u8> {
    crate::rlp::rlp_bytes(crate::bytes::be_min(x))
}

/// The encoding of a signature of zeros: one zero byte, and two strings of thirty-two.
pub open spec fn signature_item() -> Seq<u8> {
    let zero_word = seq![0xa0u8] + Seq::new(32, |i: int| 0u8);
    seq![0u8] + zero_word + zero_word
}

proof fn lemma_zero_signature()
    ensures
        crate::rlp::rlp_payload(zero_signature()) == signature_item(),
{
    let s0 = Seq::<Seq<u8>>::empty();
    let one = zero_bytes(1);
    let word = zero_bytes(32);
    lemma_payload_push(s0, one);
    lemma_payload_push(s0.push(one), word);
    lemma_payload_push(s0.push(one).push(word), word);
    assert(zero_signature() =~= s0.push(one).push(word).push(word));
    assert(crate::rlp::rlp_bytes(one) =~= seq![0u8]);
    assert(word =~= Seq::new(32, |i: int| 0u8));
    assert(crate::rlp::rlp_bytes(word) =~= seq![0xa0u8] + word);
    assert(Seq::<u8>::empty() + seq![0u8] =~= seq![0u8]);
}

/// A legacy transaction, and one of any type but those below, is encoded as the list of its nonce,
/// gas price, gas limit, destination, value and data, and a signature of zeros.
pub proof fn lemma_legacy_encoding_lists_the_fields(tx: TxEnv, r: Vec<u8>)
    requires
        call_ensures(encode_tx_for_l1_cost, (&tx,), r),
        tx.tx_type != 1,
        tx.tx_type != 2,
        tx.tx_type != 100,
        tx.tx_type != 104,
        tx.tx_type != 105,
        tx.tx_type != 106,
    ensures
        ({
            let to = match tx.kind {
                TxKind::Call(address) => address.bytes(),
                TxKind::Create => Seq::empty(),
            };
            let payload = number_item(tx.nonce as nat) + number_item(tx.gas_price as nat)
                + number_item(tx.gas_limit as nat) + crate::rlp::rlp_bytes(to) + number_item(
                tx.value@,
            ) + crate::rlp::rlp_bytes(tx.data@) + signature_item();
            r@ == crate::rlp::rlp_header(payload.len(), 0xc0) + payload
        }),
{
    lemma_zero_signature();
    let items = fallback_head(tx@);
    lemma_payload_front_to_back(items);
    crate::rlp::lemma_payload_concat(items, zero_signature());
}

/// A transaction with accesses is encoded as its type, and the list of its chain, nonce, gas
/// price, gas limit, destination, value and data, an empty list, and a signature of zeros.
pub proof fn lemma_access_list_encoding_lists_the_fields(tx: TxEnv, r: Vec<u8>)
    requires
        call_ensures(encode_tx_for_l1_cost, (&tx,), r),
        tx.tx_type == 1,
    ensures
        ({
            let chain_id = match tx.chain_id {
                Some(n) => n as nat,
                None => 0,
            };
            let to = match tx.kind {
                TxKind::Call(address) => address.bytes(),
                TxKind::Create => Seq::empty(),
            };
            let payload = number_item(chain_id) + number_item(tx.nonce as nat) + number_item(
                tx.gas_price as nat,
            ) + number_item(tx.gas_limit as nat) + crate::rlp::rlp_bytes(to) + number_item(
                tx.value@,
            ) + crate::rlp::rlp_bytes(tx.data@) + seq![0xc0u8] + signature_item();
            r@ == seq![1u8] + crate::rlp::rlp_header(payload.len(), 0xc0) + payload
        }),
{
    lemma_zero_signature();
    lemma_payload_front_to_back(fallback_head(tx@));
}

/// A transaction with a dynamic fee is encoded as its type, and the list of its chain, nonce,
/// priority fee, largest fee, gas limit, destination, value and data, an empty list, and a
/// signature of zeros.
pub proof fn lemma_dynamic_fee_encoding_lists_the_fields(tx: TxEnv, r: Vec<u8>)
    requires
        call_ensures(encode_tx_for_l1_cost, (&tx,), r),
        tx.tx_type == 2,
    ensures
        ({
            let chain_id = match tx.chain_id {
                Some(n) => n as nat,
                None => 0,
            };
            let priority = match tx.gas_priority_fee {
                Some(n) => n as nat,
                None => 0,
            };
            let to = match tx.kind {
                TxKind::Call(address) => address.bytes(),
                TxKind::Create => Seq::empty(),
            };
            let payload = number_item(chain_id) + number_item(tx.nonce as nat) + number_item(
                priority,
            ) + number_item(tx.gas_price as nat) + number_item(tx.gas_limit as nat)
                + crate::rlp::rlp_bytes(to) + number_item(tx.value@) + crate::rlp::rlp_bytes(
                tx.data@,
            ) + seq![0xc0u8] + signature_item();
            r@ == seq![2u8] + crate::rlp::rlp_header(payload.len(), 0xc0) + payload
        }),
{
    lemma_zero_signature();
    lemma_payload_front_to_back(fallback_head(tx@));
}

/// The four types that do not pay for their data are encoded to nothing, and no other type is.
pub proof fn lemma_free_types_have_no_encoding(tx: TxEnv, r: Vec<u8>)
    requires
        call_ensures(encode_tx_for_l1_cost, (&tx,), r),
    ensures
        r@.len() == 0 <==> tx.tx_type == 100 || tx.tx_type == 104 || tx.tx_type == 105 || tx.tx_type
            == 106,
{
}

/// The payload of six to eight items.
proof fn lemma_payload_front_to_back(items: Seq<Seq<u8>>)
    requires
        6 <= items.len() <= 8,
    ensures
        ({
            let e = |i: int| crate::rlp::rlp_bytes(items[i]);
            let six = e(0) + e(1) + e(2) + e(3) + e(4) + e(5);
            crate::rlp::rlp_payload(items) == if items.len() == 6 {
                six
            } else if items.len() == 7 {
                six + e(6)
            } else {
                six + e(6) + e(7)
            }
        }),
{
    crate::rlp::lemma_payload_single(items.take(1));
    lemma_payload_take(items, 1);
    lemma_payload_take(items, 2);
    lemma_payload_take(items, 3);
    lemma_payload_take(items, 4);
    lemma_payload_take(items, 5);
    if items.len() >= 7 {
        lemma_payload_take(items, 6);
    }
    if items.len() == 8 {
        lemma_payload_take(items, 7);
    }
    assert(items.take(items.len() as int) =~= items);
}

/// The payload of the first items, and of one more.
proof fn lemma_payload_take(items: Seq<Seq<u8>>, n: int)
    requires
        0 <= n < items.len(),
    ensures
        crate::rlp::rlp_payload(items.take(n + 1)) == crate::rlp::rlp_payload(items.take(n))
            + crate::rlp::rlp_bytes(items[n]),
{
    assert(items.take(n + 1) =~= items.take(n).push(items[n]));
    lemma_payload_push(items.take(n), items[n]);
}

/// The bytes that a transaction is priced by are its canonical ones where these are known, for
/// every type that pays for its data, and no bytes for the four that do not.
pub proof fn lemma_canonical_bytes_are_priced<T: ArbTxTr>(tx: T, r: Vec<u8>, shared: Bytes)
    requires
        call_ensures(encode_tx_bytes::<T>, (&tx,), r),
        call_ensures(poster_tx_bytes::<T>, (&tx,), shared),
    ensures
        shared@ == r@,
        ({
            let ty = tx.fields().tx_type;
            if ty == 100 || ty == 104 || ty == 105 || ty == 106 {
                r@.len() == 0
            } else {
                tx.canonical() matches Some(bytes) ==> r@ == bytes
            }
        }),
{
}

/// Where the canonical bytes are not known, a transaction is priced by its fallback encoding.
pub proof fn lemma_unknown_bytes_are_encoded<T: ArbTxTr>(tx: T, base: TxEnv, r: Vec<u8>, q: Vec<u8>)
    requires
        call_ensures(encode_tx_bytes::<T>, (&tx,), r),
        call_ensures(encode_tx_for_l1_cost, (&base,), q),
        base@ == tx.fields(),
        tx.canonical() is None,
    ensures
        r@ == q@,
{
}

} // verus!
