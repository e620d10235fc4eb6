//! Big-endian byte strings and the numbers they stand for.
use vstd::prelude::*;

verus! {

/// 256 to the power of `n`.
pub open spec fn pow256(n: nat) -> nat
    decreases n,
{
    if n == 0 {
        1
    } else {
        256 * pow256((n - 1) as nat)
    }
}

/// The number that a byte string stands for, most significant byte first.
pub open spec fn be_value(s: Seq<u8>) -> nat
    decreases s.len(),
{
    if s.len() == 0 {
        0
    } else {
        256 * be_value(s.drop_last()) + s.last() as nat
    }
}

/// Whether a byte string has no leading zero byte.
pub open spec fn is_minimal(s: Seq<u8>) -> bool {
    s.len() > 0 ==> s[0] != 0
}

/// The shortest byte string that stands for `x`; zero is the empty string.
pub open spec fn be_min(x: nat) -> Seq<u8>
    decreases x,
{
    if x == 0 {
        Seq::empty()
    } else {
        be_min(x / 256).push((x % 256) as u8)
    }
}

/// The byte string of length `width` that stands for `x`, cut to its low bytes.
pub open spec fn be_fixed(x: nat, width: nat) -> Seq<u8>
    decreases width,
{
    if width == 0 {
        Seq::empty()
    } else {
        be_fixed(x / 256, (width - 1) as nat).push((x % 256) as u8)
    }
}

/// A byte string is the fixed-width form of its number.
pub proof fn lemma_be_fixed(s: Seq<u8>)
    ensures
        s == be_fixed(be_value(s), s.len()),
    decreases s.len(),
{
    if s.len() > 0 {
        lemma_be_fixed(s.drop_last());
        assert(s =~= s.drop_last().push(s.last()));
    } else {
        assert(s =~= Seq::<u8>::empty());
    }
}

/// The value of a concatenation.
pub proof fn lemma_be_value_concat(a: Seq<u8>, b: Seq<u8>)
    ensures
        be_value(a + b) == be_value(a) * pow256(b.len()) + be_value(b),
    decreases b.len(),
{
    if b.len() == 0 {
        assert(a + b =~= a);
        assert(be_value(a) * pow256(0) == be_value(a)) by {
            assert(pow256(0) == 1);
        }
    } else {
        assert((a + b).drop_last() =~= a + b.drop_last());
        assert((a + b).last() == b.last());
        lemma_be_value_concat(a, b.drop_last());
        let p = pow256((b.len() - 1) as nat);
        let v = be_value(a);
        assert(256 * (v * p) == v * (256 * p)) by (nonlinear_arith);
    }
}

/// Eight more bytes shift the number by the weight of one limb.
pub proof fn lemma_be_value_limb(a: Seq<u8>, b: Seq<u8>)
    requires
        b.len() == 8,
    ensures
        be_value(a + b) == 0x1_0000_0000_0000_0000 * be_value(a) + be_value(b),
{
    lemma_be_value_concat(a, b);
    lemma_pow256_limb();
    let v = be_value(a);
    let p = pow256(8);
    assert(v * p == 0x1_0000_0000_0000_0000 * v) by (nonlinear_arith)
        requires
            p == 0x1_0000_0000_0000_0000,
    ;
}

/// Eight bytes hold exactly the 64-bit numbers.
pub proof fn lemma_pow256_limb()
    ensures
        pow256(8) == 0x1_0000_0000_0000_0000,
        pow256(4) == 0x1_0000_0000,
{
    reveal_with_fuel(pow256, 9);
}

/// A byte string of length `n` stands for a number below 256 to the power of `n`.
pub proof fn lemma_be_value_bound(s: Seq<u8>)
    ensures
        be_value(s) < pow256(s.len()),
    decreases s.len(),
{
    if s.len() > 0 {
        lemma_be_value_bound(s.drop_last());
    }
}

/// A byte string without a leading zero stands for zero only where it is empty.
pub proof fn lemma_minimal_nonzero(s: Seq<u8>)
    requires
        is_minimal(s),
        s.len() > 0,
    ensures
        be_value(s) > 0,
    decreases s.len(),
{
    if s.len() > 1 {
        assert(s.drop_last()[0] == s[0]);
        lemma_minimal_nonzero(s.drop_last());
    } else {
        assert(s.last() == s[0]);
    }
}

/// The shortest string stands for its number and has no leading zero.
pub proof fn lemma_be_min(x: nat)
    ensures
        be_value(be_min(x)) == x,
        is_minimal(be_min(x)),
    decreases x,
{
    if x > 0 {
        let head = be_min(x / 256);
        let s = head.push((x % 256) as u8);
        lemma_be_min(x / 256);
        assert(s.drop_last() =~= head);
        if head.len() > 0 {
            assert(s[0] == head[0]);
        } else {
            assert(x / 256 == 0);
        }
    }
}

/// A byte string without a leading zero is the shortest one for its number.
pub proof fn lemma_minimal_is_be_min(s: Seq<u8>)
    requires
        is_minimal(s),
    ensures
        s == be_min(be_value(s)),
    decreases s.len(),
{
    if s.len() > 0 {
        let t = s.drop_last();
        if t.len() > 0 {
            assert(t[0] == s[0]);
        }
        lemma_minimal_is_be_min(t);
        lemma_minimal_nonzero(s);
        assert(s =~= t.push(s.last()));
    }
}

/// The length of the shortest string for a number below 256 to the power of `n`.
pub proof fn lemma_be_min_len(x: nat, n: nat)
    requires
        x < pow256(n),
    ensures
        be_min(x).len() <= n,
    decreases n,
{
    if x > 0 {
        assert(n > 0);
        lemma_be_min_len(x / 256, (n - 1) as nat);
    }
}

/// Leading zero bytes do not change the number.
pub proof fn lemma_leading_zeros(s: Seq<u8>, n: int)
    requires
        0 <= n <= s.len(),
        forall|i: int| 0 <= i < n ==> s[i] == 0,
    ensures
        be_value(s) == be_value(s.skip(n)),
{
    let zeros = s.take(n);
    lemma_zeros_value(zeros);
    lemma_be_value_concat(zeros, s.skip(n));
    assert(zeros + s.skip(n) =~= s);
    assert(0 * pow256(s.skip(n).len()) == 0) by (nonlinear_arith);
}

proof fn lemma_zeros_value(s: Seq<u8>)
    requires
        forall|i: int| 0 <= i < s.len() ==> s[i] == 0,
    ensures
        be_value(s) == 0,
    decreases s.len(),
{
    if s.len() > 0 {
        lemma_zeros_value(s.drop_last());
    }
}

/// Drops the leading zero bytes: the shortest string for the same number.
pub fn strip_leading_zeros(bytes: &[u8]) -> (r: &[u8])
    ensures
        r@ == be_min(be_value(bytes@)),
{
    let mut first: usize = 0;
    while first < bytes.len() && bytes[first] == 0
        invariant
            0 <= first <= bytes@.len(),
            forall|i: int| 0 <= i < first ==> bytes@[i] == 0,
        decreases bytes@.len() - first,
    {
        first = first + 1;
    }
    let rest = vstd::slice::slice_subrange(bytes, first, bytes.len());
    proof {
        assert(rest@ =~= bytes@.skip(first as int));
        lemma_leading_zeros(bytes@, first as int);
        lemma_minimal_is_be_min(rest@);
    }
    rest
}

/// `x` as `width` bytes, most significant first.
pub fn to_be_bytes(x: u128, width: usize) -> (r: Vec<u8>)
    requires
        x < pow256(width as nat),
    ensures
        r@ == be_fixed(x as nat, width as nat),
        r@.len() == width,
        be_value(r@) == x,
{
    let mut out: Vec<u8> = vec![0u8; width];
    let mut rem: u128 = x;
    let mut i: usize = width;
    proof {
        assert(out@.skip(width as int) =~= Seq::<u8>::empty());
        assert(rem * pow256(0) == rem) by {
            assert(pow256(0) == 1);
        }
    }
    while i > 0
        invariant
            i <= width,
            out@.len() == width,
            x == be_value(out@.skip(i as int)) + rem * pow256((width - i) as nat),
        decreases i,
    {
        let ghost tail = out@.skip(i as int);
        let ghost before = rem;
        let byte: u8 = (rem % 256) as u8;
        rem = rem / 256;
        i = i - 1;
        out[i] = byte;
        proof {
            let head = seq![byte];
            assert(out@.skip(i as int) =~= head + tail);
            lemma_be_value_concat(head, tail);
            assert(head.drop_last() =~= Seq::<u8>::empty());
            assert(be_value(head) == byte as nat) by {
                assert(be_value(head.drop_last()) == 0);
            }
            let p = pow256(tail.len());
            let q = rem;
            assert(before * p == q * (256 * p) + byte * p) by (nonlinear_arith)
                requires
                    before == 256 * q + byte,
            ;
        }
    }
    proof {
        assert(out@.skip(0) =~= out@);
        let p = pow256(width as nat);
        let q = rem;
        if q > 0 {
            assert(q * p >= p) by (nonlinear_arith)
                requires
                    q > 0,
                    p >= 0,
            ;
        }
        assert(q == 0);
        assert(0 * p == 0) by (nonlinear_arith);
        lemma_be_fixed(out@);
    }
    out
}

/// The number that up to eight bytes stand for.
pub fn from_be_bytes(bytes: &[u8]) -> (r: u64)
    requires
        bytes@.len() <= 8,
    ensures
        r == be_value(bytes@),
{
    let mut acc: u64 = 0;
    let mut i: usize = 0;
    assert(bytes@.take(0) =~= Seq::<u8>::empty());
    while i < bytes.len()
        invariant
            0 <= i <= bytes@.len(),
            bytes@.len() <= 8,
            acc == be_value(bytes@.take(i as int)),
        decreases bytes@.len() - i,
    {
        proof {
            let next = bytes@.take(i + 1);
            assert(next.drop_last() =~= bytes@.take(i as int));
            assert(next.last() == bytes@[i as int]);
            lemma_be_value_bound(next);
            lemma_pow256_mono(next.len(), 8);
            reveal_with_fuel(pow256, 9);
        }
        acc = acc * 256 + bytes[i] as u64;
        i = i + 1;
    }
    assert(bytes@.take(i as int) =~= bytes@);
    acc
}

/// Powers of 256 do not shrink.
pub proof fn lemma_pow256_mono(m: nat, n: nat)
    requires
        m <= n,
    ensures
        pow256(m) <= pow256(n),
    decreases n,
{
    if m < n {
        lemma_pow256_mono(m, (n - 1) as nat);
    }
}

/// A number that fits `n` bytes is given back by them.
pub proof fn lemma_be_fixed_value(x: nat, n: nat)
    requires
        x < pow256(n),
    ensures
        be_fixed(x, n).len() == n,
        be_value(be_fixed(x, n)) == x,
    decreases n,
{
    if n > 0 {
        lemma_be_fixed_value(x / 256, (n - 1) as nat);
        let s = be_fixed(x, n);
        assert(s.drop_last() =~= be_fixed(x / 256, (n - 1) as nat));
    }
}

/// Whether two byte strings are the same.
pub fn bytes_eq(a: &[u8], b: &[u8]) -> (r: bool)
    ensures
        r == (a@ == b@),
{
    if a.len() != b.len() {
        return false;
    }
    let mut i: usize = 0;
    while i < a.len()
        invariant
            0 <= i <= a@.len(),
            a@.len() == b@.len(),
            forall|j: int| 0 <= j < i ==> a@[j] == b@[j],
        decreases a@.len() - i,
    {
        if a[i] != b[i] {
            return false;
        }
        i = i + 1;
    }
    assert(a@ =~= b@);
    true
}

/// The place of a byte weighs 256 times as much as the place behind it, and the last place weighs
/// one.
pub proof fn lemma_places(b: u8, m: nat, n: nat)
    ensures
        be_value(Seq::empty()) == 0,
        be_value(seq![b]) == b,
        pow256(0) == 1,
        pow256(1) == 256,
        pow256(m + n) == pow256(m) * pow256(n),
    decreases m,
{
    reveal_with_fuel(be_value, 2);
    reveal_with_fuel(pow256, 2);
    assert(seq![b].drop_last() =~= Seq::<u8>::empty());
    if m > 0 {
        lemma_places(b, (m - 1) as nat, n);
        let p = pow256((m - 1) as nat);
        let q = pow256(n);
        assert((256 * p) * q == 256 * (p * q)) by (nonlinear_arith);
        assert((m - 1) as nat + n == (m + n - 1) as nat);
    } else {
        assert(1 * pow256(n) == pow256(n)) by (nonlinear_arith);
    }
}

/// How many leading bytes are zero.
spec fn zeros_before(s: Seq<u8>) -> nat
    decreases s.len(),
{
    if s.len() > 0 && s[0] == 0 {
        1 + zeros_before(s.skip(1))
    } else {
        0
    }
}

proof fn lemma_zeros_before(s: Seq<u8>)
    ensures
        zeros_before(s) <= s.len(),
        forall|i: int| 0 <= i < zeros_before(s) ==> s[i] == 0,
        zeros_before(s) < s.len() ==> s[zeros_before(s) as int] != 0,
    decreases s.len(),
{
    if s.len() > 0 && s[0] == 0 {
        let rest = s.skip(1);
        lemma_zeros_before(rest);
        assert forall|i: int| 0 <= i < zeros_before(s) implies s[i] == 0 by {
            if i > 0 {
                assert(rest[i - 1] == 0);
            }
        }
    }
}

/// Dropping the leading zeros leaves the rest of the bytes as they are: what is dropped is zeros
/// only, and what is left does not begin with one.
pub proof fn lemma_only_zeros_are_dropped(bytes: &[u8], r: &[u8])
    requires
        call_ensures(strip_leading_zeros, (bytes,), r),
    ensures
        r@.len() <= bytes@.len(),
        r@ == bytes@.skip(bytes@.len() - r@.len()),
        forall|i: int| 0 <= i < bytes@.len() - r@.len() ==> bytes@[i] == 0,
        r@.len() > 0 ==> r@[0] != 0,
{
    let n = zeros_before(bytes@) as int;
    lemma_zeros_before(bytes@);
    lemma_leading_zeros(bytes@, n);
    lemma_minimal_is_be_min(bytes@.skip(n));
}

} // verus!
