//! Positional notation: what a string of decimal digits and what a string of
//! big-endian bytes stand for, and how the two are related.

use vstd::prelude::*;

verus! {

/// `256^n`.
pub open spec fn pow256(n: nat) -> nat
    decreases n,
{
    if n == 0 {
        1
    } else {
        256 * pow256((n - 1) as nat)
    }
}

/// The number that big-endian bytes stand for.
pub open spec fn be_value(bytes: Seq<u8>) -> nat
    decreases bytes.len(),
{
    if bytes.len() == 0 {
        0
    } else {
        256 * be_value(bytes.drop_last()) + bytes.last() as nat
    }
}

/// The `len` big-endian bytes of a number below `256^len`.
pub open spec fn be_bytes(n: nat, len: nat) -> Seq<u8>
    decreases len,
{
    if len == 0 {
        Seq::empty()
    } else {
        be_bytes(n / 256, (len - 1) as nat).push((n % 256) as u8)
    }
}

/// One of the characters `0` to `9`.
pub open spec fn is_digit(c: char) -> bool {
    '0' <= c <= '9'
}

/// The number that a digit character stands for.
pub open spec fn digit_of(c: char) -> nat {
    (c as u32 - 48) as nat
}

/// The character for a digit below ten.
pub open spec fn digit_char(d: nat) -> char {
    ((48 + d) as u8) as char
}

/// A non-empty string of decimal digits, with nothing else in it.
pub open spec fn is_decimal(s: Seq<char>) -> bool {
    s.len() > 0 && forall|i: int| 0 <= i < s.len() ==> is_digit(#[trigger] s[i])
}

/// The number that a string of decimal digits stands for. Leading zeros
/// do not change it.
pub open spec fn decimal_value(s: Seq<char>) -> nat
    decreases s.len(),
{
    if s.len() == 0 {
        0
    } else {
        10 * decimal_value(s.drop_last()) + digit_of(s.last())
    }
}

/// The shortest decimal string for a number: no leading zero, and `"0"` for
/// zero.
pub open spec fn decimal_digits(n: nat) -> Seq<char>
    decreases n,
{
    if n < 10 {
        seq![digit_char(n)]
    } else {
        decimal_digits(n / 10).push(digit_char(n % 10))
    }
}

/// A decimal string in its shortest form.
pub open spec fn is_canonical_decimal(s: Seq<char>) -> bool {
    is_decimal(s) && (s.len() == 1 || s[0] != '0')
}

/// A digit's character reads back as that digit.
pub proof fn lemma_digit_char(d: nat)
    requires
        d < 10,
    ensures
        is_digit(digit_char(d)),
        digit_of(digit_char(d)) == d,
        d == 0 <==> digit_char(d) == '0',
{
}

/// A digit character is the character of its digit.
pub proof fn lemma_digit_of(c: char)
    requires
        is_digit(c),
    ensures
        digit_of(c) < 10,
        digit_char(digit_of(c)) == c,
{
}

/// The shortest decimal string of a number is canonical and stands for that
/// number.
pub proof fn lemma_decimal_digits_value(n: nat)
    ensures
        is_canonical_decimal(decimal_digits(n)),
        decimal_value(decimal_digits(n)) == n,
        n > 0 ==> decimal_digits(n)[0] != '0',
    decreases n,
{
    if n < 10 {
        lemma_digit_char(n);
        let s = decimal_digits(n);
        assert(s.drop_last() =~= Seq::<char>::empty());
        assert(decimal_value(s.drop_last()) == 0);
    } else {
        let q = n / 10;
        let r = n % 10;
        lemma_decimal_digits_value(q);
        lemma_digit_char(r);
        let s = decimal_digits(n);
        let p = decimal_digits(q);
        assert(s == p.push(digit_char(r)));
        assert(s.drop_last() =~= p);
        assert(s.last() == digit_char(r));
        assert forall|i: int| 0 <= i < s.len() implies is_digit(#[trigger] s[i]) by {
            if i < p.len() {
                assert(s[i] == p[i]);
            }
        }
        assert(s[0] == p[0]);
    }
}

/// A canonical decimal string is the shortest string of its own value: two
/// canonical strings with one value are the same string.
pub proof fn lemma_canonical_decimal_unique(s: Seq<char>)
    requires
        is_canonical_decimal(s),
    ensures
        decimal_digits(decimal_value(s)) == s,
    decreases s.len(),
{
    let last = s.last();
    assert(is_digit(last));
    lemma_digit_of(last);
    if s.len() == 1 {
        assert(s.drop_last() =~= Seq::<char>::empty());
        assert(decimal_value(s.drop_last()) == 0);
        assert(decimal_value(s) == digit_of(last));
        assert(decimal_digits(digit_of(last)) =~= s);
    } else {
        let p = s.drop_last();
        assert(forall|i: int| 0 <= i < p.len() ==> p[i] == s[i]);
        assert(is_decimal(p));
        assert(p[0] == s[0]);
        assert(is_canonical_decimal(p));
        lemma_canonical_decimal_unique(p);
        lemma_decimal_leading_nonzero(p);
        let v = decimal_value(p);
        assert(v >= 1);
        let n = decimal_value(s);
        assert(n == 10 * v + digit_of(last));
        assert(n >= 10);
        assert(n / 10 == v && n % 10 == digit_of(last));
        assert(decimal_digits(n) == decimal_digits(v).push(digit_char(digit_of(last))));
        assert(decimal_digits(n) =~= s);
    }
}

/// A decimal string that starts with a digit other than zero stands for a
/// number above zero.
pub proof fn lemma_decimal_leading_nonzero(s: Seq<char>)
    requires
        is_decimal(s),
        s[0] != '0',
    ensures
        decimal_value(s) >= 1,
    decreases s.len(),
{
    if s.len() == 1 {
        assert(s.drop_last() =~= Seq::<char>::empty());
        assert(decimal_value(s.drop_last()) == 0);
        assert(is_digit(s[0]));
        assert(s.last() == s[0]);
    } else {
        let p = s.drop_last();
        assert(forall|i: int| 0 <= i < p.len() ==> p[i] == s[i]);
        assert(p[0] == s[0]);
        lemma_decimal_leading_nonzero(p);
    }
}

/// `n` big-endian bytes stand for a number below `256^n`.
pub proof fn lemma_be_value_bound(bytes: Seq<u8>)
    ensures
        be_value(bytes) < pow256(bytes.len()),
    decreases bytes.len(),
{
    if bytes.len() > 0 {
        lemma_be_value_bound(bytes.drop_last());
    }
}

/// Byte strings of one length that stand for one number are the same string.
pub proof fn lemma_be_value_injective(a: Seq<u8>, b: Seq<u8>)
    requires
        a.len() == b.len(),
        be_value(a) == be_value(b),
    ensures
        a == b,
    decreases a.len(),
{
    if a.len() == 0 {
        assert(a =~= b);
    } else {
        let pa = a.drop_last();
        let pb = b.drop_last();
        assert(be_value(a) == 256 * be_value(pa) + a.last() as nat);
        assert(be_value(b) == 256 * be_value(pb) + b.last() as nat);
        assert(be_value(pa) == be_value(pb) && a.last() == b.last());
        lemma_be_value_injective(pa, pb);
        assert(a =~= pa.push(a.last()));
        assert(b =~= pb.push(b.last()));
    }
}

/// Zero bytes in front do not change the number that bytes stand for.
pub proof fn lemma_be_value_skip_zeros(bytes: Seq<u8>, k: int)
    requires
        0 <= k <= bytes.len(),
        forall|i: int| 0 <= i < k ==> bytes[i] == 0,
    ensures
        be_value(bytes.skip(k)) == be_value(bytes),
    decreases bytes.len(),
{
    if k == bytes.len() {
        assert(bytes.skip(k) =~= Seq::<u8>::empty());
        lemma_be_value_zeros(bytes);
    } else {
        let p = bytes.drop_last();
        lemma_be_value_skip_zeros(p, k);
        assert(bytes.skip(k).drop_last() =~= p.skip(k));
        assert(bytes.skip(k).last() == bytes.last());
    }
}

/// Bytes that are all zero stand for zero.
pub proof fn lemma_be_value_zeros(bytes: Seq<u8>)
    requires
        forall|i: int| 0 <= i < bytes.len() ==> bytes[i] == 0,
    ensures
        be_value(bytes) == 0,
    decreases bytes.len(),
{
    if bytes.len() > 0 {
        lemma_be_value_zeros(bytes.drop_last());
    }
}

/// The bytes of a number stand for that number.
pub proof fn lemma_be_bytes_value(n: nat, len: nat)
    requires
        n < pow256(len),
    ensures
        be_bytes(n, len).len() == len,
        be_value(be_bytes(n, len)) == n,
    decreases len,
{
    if len > 0 {
        let rest = be_bytes(n / 256, (len - 1) as nat);
        lemma_be_bytes_value(n / 256, (len - 1) as nat);
        assert(be_bytes(n, len).drop_last() =~= rest);
    }
}

/// The bytes of the number that a byte string stands for are that string.
pub proof fn lemma_be_bytes_of_value(bytes: Seq<u8>)
    ensures
        be_bytes(be_value(bytes), bytes.len()) == bytes,
    decreases bytes.len(),
{
    if bytes.len() == 0 {
        assert(be_bytes(be_value(bytes), 0) =~= bytes);
    } else {
        let rest = bytes.drop_last();
        lemma_be_bytes_of_value(rest);
        let n = be_value(bytes);
        assert(n / 256 == be_value(rest) && n % 256 == bytes.last());
        assert(be_bytes(n, bytes.len()) =~= bytes);
    }
}

} // verus!
