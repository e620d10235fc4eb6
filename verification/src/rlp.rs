//! The RLP encoding of byte strings and of flat lists of byte strings.
use crate::bytes::{strip_leading_zeros, to_be_bytes};
use vstd::prelude::*;

verus! {

broadcast use vstd::seq_lib::group_seq_properties;

/// The header of an item of `len` bytes; `offset` tells a string from a list.
pub open spec fn rlp_header(len: nat, offset: nat) -> Seq<u8> {
    if len < 56 {
        seq![(offset + len) as u8]
    } else {
        seq![(offset + 55 + crate::bytes::be_min(len).len()) as u8] + crate::bytes::be_min(len)
    }
}

/// The encoding of a byte string.
pub open spec fn rlp_bytes(s: Seq<u8>) -> Seq<u8> {
    if s.len() == 1 && s[0] < 0x80 {
        s
    } else {
        rlp_header(s.len(), 0x80) + s
    }
}

/// The encodings of the items, one after the other.
pub open spec fn rlp_payload(items: Seq<Seq<u8>>) -> Seq<u8>
    decreases items.len(),
{
    if items.len() == 0 {
        Seq::empty()
    } else {
        rlp_payload(items.drop_last()) + rlp_bytes(items.last())
    }
}

/// The encoding of a list of byte strings.
pub open spec fn rlp_list(items: Seq<Seq<u8>>) -> Seq<u8> {
    rlp_header(rlp_payload(items).len(), 0xc0) + rlp_payload(items)
}

/// The contents of a list of borrowed byte strings.
pub open spec fn contents(items: Seq<&[u8]>) -> Seq<Seq<u8>> {
    Seq::new(items.len(), |i: int| items[i]@)
}

/// Whether every item is short enough for an eight-byte length.
pub open spec fn lengths_fit(items: Seq<Seq<u8>>) -> bool {
    forall|i: int| 0 <= i < items.len() ==> (#[trigger] items[i]).len() < crate::bytes::pow256(8)
}

/// Appends the header of an item of `len` bytes.
pub fn rlp_write_length(out: &mut Vec<u8>, len: usize, offset: u8)
    requires
        offset <= 0xc0,
    ensures
        final(out)@ == old(out)@ + rlp_header(len as nat, offset as nat),
{
    if len < 56 {
        out.push(offset + len as u8);
        assert(out@ =~= old(out)@ + seq![(offset + len) as u8]);
    } else {
        proof {
            reveal_with_fuel(crate::bytes::pow256, 9);
            crate::bytes::lemma_be_min_len(len as nat, 8);
        }
        let raw = to_be_bytes(len as u128, 8);
        let len_bytes = strip_leading_zeros(raw.as_slice());
        let count: usize = len_bytes.len();
        out.push(offset + 55 + count as u8);
        let ghost first = (offset + 55 + count) as u8;
        out.extend_from_slice(len_bytes);
        assert(out@ =~= old(out)@ + (seq![first] + len_bytes@));
    }
}

/// Encodes a byte string: one byte below 0x80 stands for itself, anything else
/// follows its header.
pub fn rlp_encode_bytes(bytes: &[u8]) -> (r: Vec<u8>)
    ensures
        r@ == rlp_bytes(bytes@),
{
    if bytes.len() == 1 && bytes[0] < 0x80 {
        let r: Vec<u8> = vec![bytes[0]];
        assert(r@ =~= bytes@);
        return r;
    }
    let mut out: Vec<u8> = Vec::new();
    rlp_write_length(&mut out, bytes.len(), 0x80);
    out.extend_from_slice(bytes);
    assert(out@ =~= rlp_header(bytes@.len(), 0x80) + bytes@);
    out
}

/// Encodes byte strings one after the other.
pub fn rlp_encode_payload(items: &[&[u8]]) -> (r: Vec<u8>)
    ensures
        r@ == rlp_payload(contents(items@)),
{
    let mut payload: Vec<u8> = Vec::new();
    let mut i: usize = 0;
    let ghost all = contents(items@);
    assert(all.take(0) =~= Seq::<Seq<u8>>::empty());
    while i < items.len()
        invariant
            0 <= i <= items@.len(),
            all == contents(items@),
            payload@ == rlp_payload(all.take(i as int)),
        decreases items@.len() - i,
    {
        let item = rlp_encode_bytes(items[i]);
        payload.extend_from_slice(item.as_slice());
        proof {
            let next = all.take(i + 1);
            assert(next.drop_last() =~= all.take(i as int));
            assert(next.last() == items@[i as int]@);
            assert(payload@ =~= rlp_payload(all.take(i as int)) + rlp_bytes(next.last()));
        }
        i = i + 1;
    }
    assert(all.take(i as int) =~= all);
    payload
}

/// Appends the encoding of a list of byte strings.
pub fn rlp_encode_list(out: &mut Vec<u8>, items: &[&[u8]])
    ensures
        final(out)@ == old(out)@ + rlp_list(contents(items@)),
{
    let payload = rlp_encode_payload(items);
    rlp_write_length(out, payload.len(), 0xc0);
    out.extend_from_slice(payload.as_slice());
    assert(out@ =~= old(out)@ + rlp_list(contents(items@)));
}

/// A header tells the length of its item apart from what follows it.
pub proof fn lemma_header_prefix_free(m: nat, n: nat, offset: nat, x: Seq<u8>, y: Seq<u8>)
    requires
        m < crate::bytes::pow256(8),
        n < crate::bytes::pow256(8),
        offset <= 0xc0,
        rlp_header(m, offset) + x == rlp_header(n, offset) + y,
    ensures
        m == n,
        x == y,
{
    crate::bytes::lemma_be_min_len(m, 8);
    crate::bytes::lemma_be_min_len(n, 8);
    crate::bytes::lemma_be_min(m);
    crate::bytes::lemma_be_min(n);
    let a = rlp_header(m, offset) + x;
    let b = rlp_header(n, offset) + y;
    let ma = crate::bytes::be_min(m);
    let nb = crate::bytes::be_min(n);
    if m >= 56 {
        assert(ma.len() > 0);
    }
    if n >= 56 {
        assert(nb.len() > 0);
    }
    assert(a[0] == rlp_header(m, offset)[0]);
    assert(b[0] == rlp_header(n, offset)[0]);
    if m < 56 {
        assert(n < 56);
        assert(m == n);
        assert(x =~= a.skip(1));
        assert(y =~= b.skip(1));
    } else {
        assert(n >= 56);
        assert(ma.len() == nb.len());
        let k = ma.len();
        assert(ma =~= a.subrange(1, 1 + k as int));
        assert(nb =~= b.subrange(1, 1 + k as int));
        assert(m == n);
        assert(x =~= a.skip(1 + k as int));
        assert(y =~= b.skip(1 + k as int));
    }
}

/// The encoding of a byte string tells the string apart from what follows it: no
/// encoding is a proper prefix of another, and different strings encode differently.
pub proof fn lemma_bytes_prefix_free(a: Seq<u8>, b: Seq<u8>, x: Seq<u8>, y: Seq<u8>)
    requires
        a.len() < crate::bytes::pow256(8),
        b.len() < crate::bytes::pow256(8),
        rlp_bytes(a) + x == rlp_bytes(b) + y,
    ensures
        a == b,
        x == y,
{
    crate::bytes::lemma_be_min_len(a.len(), 8);
    crate::bytes::lemma_be_min_len(b.len(), 8);
    let p = rlp_bytes(a) + x;
    let q = rlp_bytes(b) + y;
    assert(p[0] == rlp_bytes(a)[0]);
    assert(q[0] == rlp_bytes(b)[0]);
    let single_a = a.len() == 1 && a[0] < 0x80;
    let single_b = b.len() == 1 && b[0] < 0x80;
    assert(single_a == single_b);
    if single_a {
        assert(a =~= b);
        assert(x =~= p.skip(1));
        assert(y =~= q.skip(1));
    } else {
        let ha = rlp_header(a.len(), 0x80);
        let hb = rlp_header(b.len(), 0x80);
        assert(p =~= ha + (a + x));
        assert(q =~= hb + (b + y));
        lemma_header_prefix_free(a.len(), b.len(), 0x80, a + x, b + y);
        assert(a =~= (a + x).take(a.len() as int));
        assert(b =~= (b + y).take(b.len() as int));
        assert(x =~= (a + x).skip(a.len() as int));
        assert(y =~= (b + y).skip(b.len() as int));
    }
}

/// The payload begins with the encoding of the first item.
proof fn lemma_payload_front(items: Seq<Seq<u8>>)
    requires
        items.len() > 0,
    ensures
        rlp_payload(items) == rlp_bytes(items[0]) + rlp_payload(items.skip(1)),
    decreases items.len(),
{
    if items.len() == 1 {
        assert(items.skip(1) =~= Seq::<Seq<u8>>::empty());
        assert(items.drop_last() =~= Seq::<Seq<u8>>::empty());
        assert(rlp_payload(items.skip(1)) == Seq::<u8>::empty());
        assert(rlp_payload(items.drop_last()) == Seq::<u8>::empty());
        assert(rlp_payload(items) =~= rlp_bytes(items[0]) + rlp_payload(items.skip(1)));
    } else {
        lemma_payload_front(items.drop_last());
        assert(items.drop_last().skip(1) =~= items.skip(1).drop_last());
        assert(items.skip(1).last() == items.last());
        assert(rlp_payload(items) =~= rlp_bytes(items[0]) + rlp_payload(items.skip(1)));
    }
}

/// As many items have the same payload only where they are the same.
pub proof fn lemma_payload_injective(a: Seq<Seq<u8>>, b: Seq<Seq<u8>>)
    requires
        a.len() == b.len(),
        lengths_fit(a),
        lengths_fit(b),
        rlp_payload(a) == rlp_payload(b),
    ensures
        a == b,
    decreases a.len(),
{
    if a.len() > 0 {
        lemma_payload_front(a);
        lemma_payload_front(b);
        lemma_bytes_prefix_free(a[0], b[0], rlp_payload(a.skip(1)), rlp_payload(b.skip(1)));
        lemma_payload_injective(a.skip(1), b.skip(1));
        assert forall|i: int| 0 <= i < a.len() implies a[i] == b[i] by {
            if i > 0 {
                assert(a.skip(1)[i - 1] == b.skip(1)[i - 1]);
            }
        }
    }
    assert(a =~= b);
}

/// Two lists with the same number of items encode alike only where they are the same.
pub proof fn lemma_list_injective(a: Seq<Seq<u8>>, b: Seq<Seq<u8>>)
    requires
        a.len() == b.len(),
        lengths_fit(a),
        lengths_fit(b),
        rlp_payload(a).len() < crate::bytes::pow256(8),
        rlp_payload(b).len() < crate::bytes::pow256(8),
        rlp_list(a) == rlp_list(b),
    ensures
        a == b,
{
    lemma_header_prefix_free(
        rlp_payload(a).len(),
        rlp_payload(b).len(),
        0xc0,
        rlp_payload(a),
        rlp_payload(b),
    );
    lemma_payload_injective(a, b);
}

/// A string of one byte below 0x80 stands for itself; up to 55 bytes follow one byte that tells
/// their number; more follow the shortest form of their number, which itself follows a byte that
/// tells how long it is. The string itself always comes last, as it is.
pub proof fn lemma_bytes_encoding(bytes: &[u8], r: Vec<u8>)
    requires
        call_ensures(rlp_encode_bytes, (bytes,), r),
        bytes@.len() < crate::bytes::pow256(8),
    ensures
        ({
            let n = bytes@.len() as int;
            let head = r@.len() - n;
            &&& head >= 0
            &&& r@.skip(head) == bytes@
            &&& head == 0 <==> n == 1 && bytes@[0] < 0x80
            &&& head > 0 && n < 56 ==> head == 1 && r@[0] == 0x80 + n
            &&& n >= 56 ==> {
                &&& 2 <= head <= 9
                &&& r@[0] == 0xb7 + (head - 1)
                &&& r@[1] != 0
                &&& crate::bytes::be_value(r@.subrange(1, head)) == n
            }
        }),
{
    let n = bytes@.len();
    let size = crate::bytes::be_min(n);
    crate::bytes::lemma_be_min(n);
    crate::bytes::lemma_be_min_len(n, 8);
    let head = r@.len() - n;
    assert(r@.skip(head) =~= bytes@);
    if n >= 56 {
        assert(size.len() > 0);
        assert(r@.subrange(1, head) =~= size);
    }
}

/// Strings are encoded one after the other: the encoding of two lists of them, one behind the
/// other, is that of the first and then that of the second, and a single string is encoded as
/// such.
pub proof fn lemma_payload_is_one_after_the_other(
    all: &[&[u8]],
    front: &[&[u8]],
    back: &[&[u8]],
    x: Vec<u8>,
    y: Vec<u8>,
    z: Vec<u8>,
    single: Vec<u8>,
)
    requires
        all@ == front@ + back@,
        call_ensures(rlp_encode_payload, (all,), x),
        call_ensures(rlp_encode_payload, (front,), y),
        call_ensures(rlp_encode_payload, (back,), z),
    ensures
        x@ == y@ + z@,
        all@.len() == 0 ==> x@.len() == 0,
        all@.len() == 1 && call_ensures(rlp_encode_bytes, (all@[0],), single) ==> x@ == single@,
{
    assert(contents(all@) =~= contents(front@) + contents(back@));
    lemma_payload_concat(contents(front@), contents(back@));
    if all@.len() == 1 {
        lemma_payload_single(contents(all@));
    }
}

/// The payload of two lists, one behind the other.
pub proof fn lemma_payload_concat(a: Seq<Seq<u8>>, b: Seq<Seq<u8>>)
    ensures
        rlp_payload(a + b) == rlp_payload(a) + rlp_payload(b),
    decreases b.len(),
{
    if b.len() == 0 {
        assert(a + b =~= a);
        assert(rlp_payload(a) =~= rlp_payload(a) + rlp_payload(b));
    } else {
        assert((a + b).drop_last() =~= a + b.drop_last());
        lemma_payload_concat(a, b.drop_last());
        assert(rlp_payload(a + b) =~= rlp_payload(a) + rlp_payload(b));
    }
}

/// The payload of one item.
pub proof fn lemma_payload_single(items: Seq<Seq<u8>>)
    requires
        items.len() == 1,
    ensures
        rlp_payload(items) == rlp_bytes(items[0]),
{
    assert(items.drop_last() =~= Seq::<Seq<u8>>::empty());
    assert(rlp_payload(items.drop_last()) =~= Seq::<u8>::empty());
    assert(rlp_payload(items) =~= rlp_bytes(items[0]));
}

/// A list is its encoded items behind a header: up to 55 bytes follow one byte that tells their
/// number; more follow the shortest form of their number, which itself follows a byte that tells
/// how long it is. What was written before stays as it is.
pub proof fn lemma_list_encoding(items: &[&[u8]], payload: Vec<u8>)
    requires
        call_ensures(rlp_encode_payload, (items,), payload),
        payload@.len() < crate::bytes::pow256(8),
    ensures
        forall|out: &mut Vec<u8>, r: ()| #[trigger]
            call_ensures(rlp_encode_list, (out, items), r) ==> {
                let n = payload@.len() as int;
                let start = out@.len() as int;
                let head = final(out)@.len() - start - n;
                &&& head > 0
                &&& final(out)@.take(start) == out@
                &&& final(out)@.skip(start + head) == payload@
                &&& n < 56 ==> head == 1 && final(out)@[start] == 0xc0 + n
                &&& n >= 56 ==> {
                    &&& 2 <= head <= 9
                    &&& final(out)@[start] == 0xf7 + (head - 1)
                    &&& final(out)@[start + 1] != 0
                    &&& crate::bytes::be_value(final(out)@.subrange(start + 1, start + head)) == n
                }
            },
{
    let n = payload@.len();
    crate::bytes::lemma_be_min(n);
    crate::bytes::lemma_be_min_len(n, 8);
    let size = crate::bytes::be_min(n);
    assert forall|before: Seq<u8>|
        ({
            let all = #[trigger] (before + rlp_list(contents(items@)));
            let start = before.len() as int;
            let head = all.len() - start - n;
            &&& head > 0
            &&& all.take(start) == before
            &&& all.skip(start + head) == payload@
            &&& n >= 56 ==> size.len() > 0 && head == 1 + size.len() && all.subrange(
                start + 1,
                start + head,
            ) == size
        }) by {
        let all = before + rlp_list(contents(items@));
        let start = before.len() as int;
        let head = all.len() - start - n;
        assert(all.take(start) =~= before);
        assert(all.skip(start + head) =~= payload@);
        if n >= 56 {
            assert(size.len() > 0);
            assert(all.subrange(start + 1, start + head) =~= size);
        }
    }
}

/// A header is appended to what is there. It is one byte for up to 55 bytes, and else one for the
/// length of the shortest form of their number, and that.
pub proof fn lemma_header_encoding(len: usize, offset: u8)
    requires
        offset <= 0xc0,
    ensures
        forall|out: &mut Vec<u8>, r: ()| #[trigger]
            call_ensures(rlp_write_length, (out, len, offset), r) ==> {
                let start = out@.len() as int;
                let head = final(out)@.len() - start;
                &&& head > 0
                &&& final(out)@.take(start) == out@
                &&& len < 56 ==> head == 1 && final(out)@[start] == offset + len
                &&& len >= 56 ==> {
                    &&& 2 <= head <= 9
                    &&& final(out)@[start] == offset + 55 + (head - 1)
                    &&& final(out)@[start + 1] != 0
                    &&& crate::bytes::be_value(final(out)@.skip(start + 1)) == len
                }
            },
{
    crate::bytes::lemma_be_min(len as nat);
    let size = crate::bytes::be_min(len as nat);
    crate::bytes::lemma_pow256_limb();
    crate::bytes::lemma_be_min_len(len as nat, 8);
    assert forall|before: Seq<u8>|
        ({
            let all = #[trigger] (before + rlp_header(len as nat, offset as nat));
            &&& all.take(before.len() as int) == before
            &&& len >= 56 ==> size.len() > 0 && all.skip(before.len() as int + 1) == size
        }) by {
        let all = before + rlp_header(len as nat, offset as nat);
        assert(all.take(before.len() as int) =~= before);
        if len >= 56 {
            assert(size.len() > 0);
            assert(all.skip(before.len() as int + 1) =~= size);
        }
    }
}

} // verus!
