//! 256-bit unsigned words.
use crate::bytes::{from_be_bytes, to_be_bytes};
use vstd::prelude::*;

verus! {

/// Two to the power of 64, the weight of one limb.
pub open spec fn limb_base() -> nat {
    0x1_0000_0000_0000_0000nat
}

/// The largest 256-bit word.
pub open spec fn word_max() -> nat {
    0xffff_ffff_ffff_ffff_ffff_ffff_ffff_ffff_ffff_ffff_ffff_ffff_ffff_ffff_ffff_ffffnat
}

/// The number that four limbs stand for, least significant limb first.
pub open spec fn limbs_value(l0: u64, l1: u64, l2: u64, l3: u64) -> nat {
    (l0 as nat) + limb_base() * ((l1 as nat) + limb_base() * ((l2 as nat) + limb_base() * (
    l3 as nat)))
}

/// A 256-bit unsigned word held as four limbs, least significant first.
#[derive(Clone, Copy, Debug, PartialEq, Eq, Structural)]
pub struct U256 {
    pub l0: u64,
    pub l1: u64,
    pub l2: u64,
    pub l3: u64,
}

impl View for U256 {
    type V = nat;

    open spec fn view(&self) -> nat {
        limbs_value(self.l0, self.l1, self.l2, self.l3)
    }
}

impl U256 {
    /// The word zero.
    pub fn zero() -> (r: U256)
        ensures
            r@ == 0,
    {
        U256 { l0: 0, l1: 0, l2: 0, l3: 0 }
    }

    /// The largest word.
    pub fn max() -> (r: U256)
        ensures
            r@ == word_max(),
    {
        U256 {
            l0: 0xffff_ffff_ffff_ffff,
            l1: 0xffff_ffff_ffff_ffff,
            l2: 0xffff_ffff_ffff_ffff,
            l3: 0xffff_ffff_ffff_ffff,
        }
    }

    /// The word with the value of `x`.
    pub fn from_u64(x: u64) -> (r: U256)
        ensures
            r@ == x,
    {
        U256 { l0: x, l1: 0, l2: 0, l3: 0 }
    }

    /// Whether the word is zero.
    pub fn is_zero(&self) -> (r: bool)
        ensures
            r == (self@ == 0),
    {
        self.l0 == 0 && self.l1 == 0 && self.l2 == 0 && self.l3 == 0
    }

    /// The word as a `u64`, or the largest `u64` where it does not fit.
    pub fn saturating_u64(&self) -> (r: u64)
        ensures
            r == (if self@ <= u64::MAX { self@ as int } else { u64::MAX as int }),
    {
        if self.l1 == 0 && self.l2 == 0 && self.l3 == 0 {
            self.l0
        } else {
            0xffff_ffff_ffff_ffff
        }
    }

    /// The word that 32 bytes stand for, most significant first.
    pub fn from_be_slice(bytes: &[u8]) -> (r: U256)
        requires
            bytes@.len() == 32,
        ensures
            r@ == crate::bytes::be_value(bytes@),
    {
        let b3 = vstd::slice::slice_subrange(bytes, 0, 8);
        let b2 = vstd::slice::slice_subrange(bytes, 8, 16);
        let b1 = vstd::slice::slice_subrange(bytes, 16, 24);
        let b0 = vstd::slice::slice_subrange(bytes, 24, 32);
        proof {
            crate::bytes::lemma_pow256_limb();
            crate::bytes::lemma_be_value_limb(b3@, b2@);
            crate::bytes::lemma_be_value_limb(b3@ + b2@, b1@);
            crate::bytes::lemma_be_value_limb(b3@ + b2@ + b1@, b0@);
            assert(b3@ + b2@ + b1@ + b0@ =~= bytes@);
        }
        U256 {
            l0: from_be_bytes(b0),
            l1: from_be_bytes(b1),
            l2: from_be_bytes(b2),
            l3: from_be_bytes(b3),
        }
    }

    /// The 32 bytes of the word, most significant first.
    pub fn to_be_vec(&self) -> (r: Vec<u8>)
        ensures
            r@ == crate::bytes::be_fixed(self@, 32),
            crate::bytes::be_value(r@) == self@,
            r@.len() == 32,
    {
        proof {
            crate::bytes::lemma_pow256_limb();
        }
        let mut out = to_be_bytes(self.l3 as u128, 8);
        let b2 = to_be_bytes(self.l2 as u128, 8);
        let b1 = to_be_bytes(self.l1 as u128, 8);
        let b0 = to_be_bytes(self.l0 as u128, 8);
        let ghost b3 = out@;
        out.extend_from_slice(b2.as_slice());
        out.extend_from_slice(b1.as_slice());
        out.extend_from_slice(b0.as_slice());
        proof {
            assert(out@ =~= b3 + b2@ + b1@ + b0@);
            crate::bytes::lemma_be_value_limb(b3, b2@);
            crate::bytes::lemma_be_value_limb(b3 + b2@, b1@);
            crate::bytes::lemma_be_value_limb(b3 + b2@ + b1@, b0@);
            crate::bytes::lemma_be_fixed(out@);
        }
        out
    }

    /// The product, or the largest word where it does not fit.
    ///
    /// Calls `ruint::Uint::<256, 4>::saturating_mul`, re-exported by revm as `U256`.
    /// Trusted: the result is the smaller of the product of the two values and the
    /// largest word.
    #[verifier::external_body]
    pub(crate) fn saturating_mul(self, other: U256) -> (r: U256)
        ensures
            r@ == (if self@ * other@ <= word_max() { self@ * other@ } else { word_max() }),
    {
        let a = revm::primitives::U256::from_limbs([self.l0, self.l1, self.l2, self.l3]);
        let b = revm::primitives::U256::from_limbs([other.l0, other.l1, other.l2, other.l3]);
        let limbs = a.saturating_mul(b).into_limbs();
        U256 { l0: limbs[0], l1: limbs[1], l2: limbs[2], l3: limbs[3] }
    }

    /// The quotient, rounded down.
    ///
    /// Calls the division of `ruint::Uint::<256, 4>`, re-exported by revm as `U256`, which
    /// panics on a zero divisor. Trusted: the result is the quotient of the two values
    /// rounded down.
    #[verifier::external_body]
    pub(crate) fn div_floor(self, other: U256) -> (r: U256)
        requires
            other@ != 0,
        ensures
            r@ == self@ / other@,
    {
        let a = revm::primitives::U256::from_limbs([self.l0, self.l1, self.l2, self.l3]);
        let b = revm::primitives::U256::from_limbs([other.l0, other.l1, other.l2, other.l3]);
        let limbs = (a / b).into_limbs();
        U256 { l0: limbs[0], l1: limbs[1], l2: limbs[2], l3: limbs[3] }
    }
}

/// A word is determined by its value, and its value is at most the largest word.
pub proof fn lemma_word_value(a: U256, b: U256)
    ensures
        a@ <= word_max(),
        a@ == b@ ==> a == b,
{
    let p = limb_base();
    let a1 = (a.l1 as nat) + p * ((a.l2 as nat) + p * (a.l3 as nat));
    let b1 = (b.l1 as nat) + p * ((b.l2 as nat) + p * (b.l3 as nat));
    if a@ == b@ {
        assert(a.l0 as nat + p * a1 == b.l0 as nat + p * b1);
    }
}

/// A word is the sum of its limbs, each weighted by its place, and the largest word is one less
/// than two to the power of 256.
pub proof fn lemma_limbs(a: U256)
    ensures
        a@ == a.l0 + a.l1 * 0x1_0000_0000_0000_0000 + a.l2 * 0x1_0000_0000_0000_0000_0000_0000_0000_0000
            + a.l3 * 0x1_0000_0000_0000_0000_0000_0000_0000_0000_0000_0000_0000_0000,
        word_max() + 1 == crate::bytes::pow256(32),
{
    reveal_with_fuel(crate::bytes::pow256, 33);
}

} // verus!
