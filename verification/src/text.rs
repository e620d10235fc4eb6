//! Numbers and byte strings as text.
use vstd::prelude::*;
use vstd::string::*;

verus! {

/// A digit of a base up to 16, in lower case.
pub open spec fn digit_text(n: int) -> Seq<char> {
    "0123456789abcdef"@.subrange(n, n + 1)
}

/// The hexadecimal text of a byte string.
pub open spec fn hex_text(bytes: Seq<u8>) -> Seq<char>
    decreases bytes.len(),
{
    if bytes.len() == 0 {
        Seq::empty()
    } else {
        hex_text(bytes.drop_last()) + digit_text(bytes.last() as int / 16) + digit_text(
            bytes.last() as int % 16,
        )
    }
}

/// The decimal text of a byte.
pub open spec fn decimal_text(n: u8) -> Seq<char> {
    if n >= 100 {
        digit_text(n as int / 100) + digit_text(n as int / 10 % 10) + digit_text(n as int % 10)
    } else if n >= 10 {
        digit_text(n as int / 10) + digit_text(n as int % 10)
    } else {
        digit_text(n as int)
    }
}

/// Appends a digit.
fn append_digit(out: &mut String, n: u8)
    requires
        n < 16,
    ensures
        final(out)@ == old(out)@ + digit_text(n as int),
{
    proof {
        reveal_strlit("0123456789abcdef");
    }
    out.append("0123456789abcdef".substring_char(n as usize, n as usize + 1));
}

/// Appends the hexadecimal text of `bytes`.
pub fn append_hex(out: &mut String, bytes: &[u8])
    ensures
        final(out)@ == old(out)@ + hex_text(bytes@),
{
    let mut i: usize = 0;
    while i < bytes.len()
        invariant
            i <= bytes@.len(),
            out@ == old(out)@ + hex_text(bytes@.take(i as int)),
        decreases bytes.len() - i,
    {
        let byte: u8 = bytes[i];
        append_digit(out, byte / 16);
        append_digit(out, byte % 16);
        proof {
            assert(bytes@.take(i as int + 1).drop_last() =~= bytes@.take(i as int));
        }
        i = i + 1;
        assert(out@ =~= old(out)@ + hex_text(bytes@.take(i as int)));
    }
    assert(bytes@.take(i as int) =~= bytes@);
}

/// Appends the decimal text of a byte.
pub fn append_decimal(out: &mut String, n: u8)
    ensures
        final(out)@ == old(out)@ + decimal_text(n),
{
    if n >= 100 {
        append_digit(out, n / 100);
    }
    if n >= 10 {
        append_digit(out, n / 10 % 10);
    }
    append_digit(out, n % 10);
    assert(out@ =~= old(out)@ + decimal_text(n));
}

/// Whether two texts are the same.
pub fn same_text(a: &str, b: &str) -> (r: bool)
    ensures
        r == (a@ == b@),
{
    let len: usize = a.unicode_len();
    if len != b.unicode_len() {
        return false;
    }
    let mut i: usize = 0;
    while i < len
        invariant
            i <= len,
            len == a@.len(),
            len == b@.len(),
            forall|j: int| 0 <= j < i ==> a@[j] == b@[j],
        decreases len - i,
    {
        if a.get_char(i) != b.get_char(i) {
            return false;
        }
        i = i + 1;
    }
    assert(a@ =~= b@);
    true
}

/// The character of a digit: decimal digits first, then letters in lower case.
pub open spec fn is_digit_of(c: char, n: int) -> bool {
    c as int == if n < 10 {
        0x30 + n
    } else {
        0x61 + n - 10
    }
}

/// A digit is one character, the one that stands for it.
proof fn lemma_digit_text(n: int)
    requires
        0 <= n < 16,
    ensures
        digit_text(n).len() == 1,
        is_digit_of(digit_text(n)[0], n),
{
    reveal_strlit("0123456789abcdef");
}

/// The text of bytes has two digits for each: at twice its position the one of its upper half, and
/// behind it the one of its lower half.
pub proof fn lemma_hex_text(bytes: Seq<u8>, i: int)
    requires
        0 <= i < bytes.len(),
    ensures
        hex_text(bytes).len() == 2 * bytes.len(),
        is_digit_of(hex_text(bytes)[2 * i], bytes[i] as int / 16),
        is_digit_of(hex_text(bytes)[2 * i + 1], bytes[i] as int % 16),
    decreases bytes.len(),
{
    let last = bytes.last() as int;
    let head = bytes.drop_last();
    lemma_digit_text(last / 16);
    lemma_digit_text(last % 16);
    lemma_hex_len(head);
    if i < head.len() {
        lemma_hex_text(head, i);
    }
}

proof fn lemma_hex_len(bytes: Seq<u8>)
    ensures
        hex_text(bytes).len() == 2 * bytes.len(),
    decreases bytes.len(),
{
    if bytes.len() > 0 {
        lemma_digit_text(bytes.last() as int / 16);
        lemma_digit_text(bytes.last() as int % 16);
        lemma_hex_len(bytes.drop_last());
    }
}

/// The decimal text of a byte is its digits, the first of which is no zero unless the byte is.
pub proof fn lemma_decimal_text(n: u8)
    ensures
        n < 10 ==> decimal_text(n).len() == 1 && is_digit_of(decimal_text(n)[0], n as int),
        10 <= n < 100 ==> decimal_text(n).len() == 2 && is_digit_of(
            decimal_text(n)[0],
            n as int / 10,
        ) && is_digit_of(decimal_text(n)[1], n as int % 10),
        n >= 100 ==> decimal_text(n).len() == 3 && is_digit_of(decimal_text(n)[0], n as int / 100)
            && is_digit_of(decimal_text(n)[1], n as int / 10 % 10) && is_digit_of(
            decimal_text(n)[2],
            n as int % 10,
        ),
{
    lemma_digit_text(n as int / 100);
    lemma_digit_text(n as int / 10 % 10);
    lemma_digit_text(n as int % 10);
    if n < 100 {
        lemma_digit_text(n as int / 10);
    }
    if n < 10 {
        lemma_digit_text(n as int);
    }
}

} // verus!
