//! Plain values that transactions, frames and registries are made of.
use crate::bytes::{bytes_eq, from_be_bytes, to_be_bytes};
use crate::words::U256;
use std::sync::Arc;
use vstd::prelude::*;

verus! {

/// Values that can be told apart.
pub trait Same: Copy {
    /// Whether two values are the same.
    fn same(&self, other: &Self) -> (r: bool)
        ensures
            r == (*self == *other),
    ;
}

/// Copies a list.
pub fn copy_items<T: Copy>(items: &Vec<T>) -> (r: Vec<T>)
    ensures
        r@ == items@,
{
    let mut out: Vec<T> = Vec::new();
    let mut i: usize = 0;
    while i < items.len()
        invariant
            0 <= i <= items@.len(),
            out@ == items@.take(i as int),
        decreases items@.len() - i,
    {
        out.push(items[i]);
        i = i + 1;
        assert(out@ =~= items@.take(i as int));
    }
    assert(out@ =~= items@);
    out
}

/// Whether two lists are the same.
pub fn same_items<T: Same>(a: &Vec<T>, b: &Vec<T>) -> (r: bool)
    ensures
        r == (a@ == b@),
{
    if a.len() != b.len() {
        return false;
    }
    let mut i: usize = 0;
    while i < a.len()
        invariant
            0 <= i <= a@.len(),
            a@.len() == b@.len(),
            forall|j: int| 0 <= j < i ==> a@[j] == b@[j],
        decreases a@.len() - i,
    {
        if !a[i].same(&b[i]) {
            return false;
        }
        i = i + 1;
    }
    assert(a@ =~= b@);
    true
}

/// A 20-byte account address, held as one 160-bit number in three parts.
#[derive(Clone, Copy, Debug, PartialEq, Eq, Structural)]
pub struct Address {
    pub hi: u32,
    pub mid: u64,
    pub lo: u64,
}

impl View for Address {
    type V = nat;

    open spec fn view(&self) -> nat {
        (self.lo as nat) + crate::words::limb_base() * ((self.mid as nat)
            + crate::words::limb_base() * (self.hi as nat))
    }
}

impl Address {
    /// The 20 bytes of the address.
    pub open spec fn bytes(self) -> Seq<u8> {
        crate::bytes::be_fixed(self@, 20)
    }

    /// The zero address.
    pub fn zero() -> (r: Address)
        ensures
            r@ == 0,
    {
        Address { hi: 0, mid: 0, lo: 0 }
    }

    /// The address with the given 20 bytes.
    pub fn from_array(bytes: [u8; 20]) -> (r: Address)
        ensures
            r.bytes() == bytes@,
    {
        let all = bytes.as_slice();
        let hi_bytes = vstd::slice::slice_subrange(all, 0, 4);
        let mid_bytes = vstd::slice::slice_subrange(all, 4, 12);
        let lo_bytes = vstd::slice::slice_subrange(all, 12, 20);
        proof {
            crate::bytes::lemma_be_value_bound(hi_bytes@);
            crate::bytes::lemma_pow256_limb();
            crate::bytes::lemma_be_value_limb(hi_bytes@, mid_bytes@);
            crate::bytes::lemma_be_value_limb(hi_bytes@ + mid_bytes@, lo_bytes@);
            assert(hi_bytes@ + mid_bytes@ + lo_bytes@ =~= bytes@);
            crate::bytes::lemma_be_fixed(bytes@);
        }
        Address {
            hi: from_be_bytes(hi_bytes) as u32,
            mid: from_be_bytes(mid_bytes),
            lo: from_be_bytes(lo_bytes),
        }
    }

    /// The 20 bytes of the address, most significant first.
    pub fn to_vec(&self) -> (r: Vec<u8>)
        ensures
            r@ == self.bytes(),
            r@.len() == 20,
    {
        proof {
            crate::bytes::lemma_pow256_limb();
        }
        let mut out = to_be_bytes(self.hi as u128, 4);
        let mid = to_be_bytes(self.mid as u128, 8);
        let lo = to_be_bytes(self.lo as u128, 8);
        let ghost hi_bytes = out@;
        out.extend_from_slice(mid.as_slice());
        out.extend_from_slice(lo.as_slice());
        proof {
            assert(out@ =~= hi_bytes + mid@ + lo@);
            crate::bytes::lemma_be_value_limb(hi_bytes, mid@);
            crate::bytes::lemma_be_value_limb(hi_bytes + mid@, lo@);
            crate::bytes::lemma_be_fixed(out@);
        }
        out
    }
}

/// An address is determined by its bytes.
pub proof fn lemma_address_bytes(a: Address, b: Address)
    ensures
        a.bytes().len() == 20,
        a.bytes() == b.bytes() ==> a == b,
{
    assert(crate::bytes::pow256(20) == 0x1_0000_0000 * (crate::words::limb_base()
        * crate::words::limb_base())) by {
        reveal_with_fuel(crate::bytes::pow256, 21);
    }
    crate::bytes::lemma_be_fixed_value(a@, 20);
    crate::bytes::lemma_be_fixed_value(b@, 20);
}

/// A 32-byte hash, held as the 256-bit number that its bytes stand for.
#[derive(Clone, Copy, Debug, PartialEq, Eq, Structural)]
pub struct B256 {
    pub word: U256,
}

impl View for B256 {
    type V = nat;

    open spec fn view(&self) -> nat {
        self.word@
    }
}

impl B256 {
    /// The 32 bytes of the hash.
    pub open spec fn bytes(self) -> Seq<u8> {
        crate::bytes::be_fixed(self@, 32)
    }

    /// The hash of zero bytes.
    pub fn zero() -> (r: B256)
        ensures
            r@ == 0,
    {
        B256 { word: U256::zero() }
    }

    /// The hash with the given 32 bytes.
    pub fn from_array(bytes: [u8; 32]) -> (r: B256)
        ensures
            r.bytes() == bytes@,
            r@ == crate::bytes::be_value(bytes@),
    {
        let word = U256::from_be_slice(bytes.as_slice());
        proof {
            crate::bytes::lemma_be_fixed(bytes@);
        }
        B256 { word }
    }

    /// The 32 bytes of the hash.
    pub fn to_vec(&self) -> (r: Vec<u8>)
        ensures
            r@ == self.bytes(),
    {
        self.word.to_be_vec()
    }
}

/// Where a transaction is sent: to an account, or to a contract that it creates.
#[derive(Clone, Copy, Debug, PartialEq, Eq, Structural)]
pub enum TxKind {
    Create,
    Call(Address),
}

/// Shared, immutable bytes.
#[derive(Debug)]
pub struct Bytes {
    data: Arc<Vec<u8>>,
}

impl View for Bytes {
    type V = Seq<u8>;

    closed spec fn view(&self) -> Seq<u8> {
        self.data@
    }
}

impl Bytes {
    /// No bytes.
    pub fn new() -> (r: Bytes)
        ensures
            r@ == Seq::<u8>::empty(),
    {
        Bytes { data: Arc::new(Vec::new()) }
    }

    /// Takes over the bytes of a vector without copying them.
    pub fn from_vec(data: Vec<u8>) -> (r: Bytes)
        ensures
            r@ == data@,
    {
        Bytes { data: Arc::new(data) }
    }

    /// The bytes.
    pub fn as_slice(&self) -> (r: &[u8])
        ensures
            r@ == self@,
    {
        self.data.as_slice()
    }

    /// How many bytes there are.
    pub fn len(&self) -> (r: usize)
        ensures
            r == self@.len(),
    {
        self.data.len()
    }

    /// Whether there are no bytes.
    pub fn is_empty(&self) -> (r: bool)
        ensures
            r == (self@.len() == 0),
    {
        self.data.len() == 0
    }
}

impl Clone for Bytes {
    /// Shares the same storage.
    fn clone(&self) -> (r: Bytes)
        ensures
            r@ == self@,
    {
        Bytes { data: self.data.clone() }
    }
}

impl PartialEq for Bytes {
    fn eq(&self, other: &Bytes) -> (r: bool) {
        bytes_eq(self.as_slice(), other.as_slice())
    }
}

impl vstd::std_specs::cmp::PartialEqSpecImpl for Bytes {
    open spec fn obeys_eq_spec() -> bool {
        true
    }

    open spec fn eq_spec(&self, other: &Bytes) -> bool {
        self@ == other@
    }
}

impl Same for B256 {
    fn same(&self, other: &B256) -> (r: bool) {
        *self == *other
    }
}

impl Same for Address {
    fn same(&self, other: &Address) -> (r: bool) {
        *self == *other
    }
}

impl Eq for Bytes {

}

/// An address is the number of its three parts, one behind the other, and its bytes are the twenty
/// that stand for that number.
pub proof fn lemma_address_parts(a: Address)
    ensures
        a@ == a.lo + a.mid * 0x1_0000_0000_0000_0000 + a.hi
            * 0x1_0000_0000_0000_0000_0000_0000_0000_0000,
        a.bytes().len() == 20,
        crate::bytes::be_value(a.bytes()) == a@,
{
    lemma_address_bytes(a, a);
    assert(crate::bytes::pow256(20) == 0x1_0000_0000 * (crate::words::limb_base()
        * crate::words::limb_base())) by {
        reveal_with_fuel(crate::bytes::pow256, 21);
    }
    crate::bytes::lemma_be_fixed_value(a@, 20);
}

/// The bytes of a hash are the thirty-two that stand for its number, and determine it.
pub proof fn lemma_hash_bytes(a: B256, b: B256)
    ensures
        a@ == a.word@,
        a.bytes().len() == 32,
        crate::bytes::be_value(a.bytes()) == a@,
        a.bytes() == b.bytes() ==> a == b,
{
    crate::words::lemma_limbs(a.word);
    crate::words::lemma_word_value(a.word, b.word);
    crate::words::lemma_word_value(b.word, a.word);
    crate::bytes::lemma_be_fixed_value(a@, 32);
    crate::bytes::lemma_be_fixed_value(b@, 32);
}

/// Reading an address or a hash gives back the bytes that it was made of.
pub proof fn lemma_bytes_are_given_back(
    short: [u8; 20],
    long: [u8; 32],
    address: Address,
    hash: B256,
    address_bytes: Vec<u8>,
    hash_bytes: Vec<u8>,
)
    requires
        call_ensures(Address::from_array, (short,), address),
        call_ensures(Address::to_vec, (&address,), address_bytes),
        call_ensures(B256::from_array, (long,), hash),
        call_ensures(B256::to_vec, (&hash,), hash_bytes),
    ensures
        address_bytes@ == short@,
        hash_bytes@ == long@,
{
}

} // verus!
