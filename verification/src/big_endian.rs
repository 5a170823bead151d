//! Natural numbers as big-endian byte strings.

use vstd::prelude::*;

verus! {

/// The number that `bytes` spells when read with the most significant byte first.
pub open spec fn be_value(bytes: Seq<u8>) -> nat
    decreases bytes.len(),
{
    if bytes.len() == 0 {
        0
    } else {
        256 * be_value(bytes.drop_last()) + bytes.last() as nat
    }
}

/// The shortest big-endian byte string that spells `n`; the empty one for zero.
pub open spec fn minimal_be(n: nat) -> Seq<u8>
    decreases n,
{
    if n == 0 {
        Seq::empty()
    } else {
        minimal_be(n / 256).push((n % 256) as u8)
    }
}

/// `bytes` without the zero bytes it starts with.
pub open spec fn strip_leading_zeros(bytes: Seq<u8>) -> Seq<u8>
    decreases bytes.len(),
{
    if bytes.len() > 0 && bytes[0] == 0 {
        strip_leading_zeros(bytes.subrange(1, bytes.len() as int))
    } else {
        bytes
    }
}

/// 256 to the power `k`.
pub open spec fn pow256(k: nat) -> nat
    decreases k,
{
    if k == 0 {
        1
    } else {
        256 * pow256((k - 1) as nat)
    }
}

/// A minimal encoding starts with a non-zero byte, and zero has the empty encoding.
pub proof fn lemma_minimal_be_no_leading_zero(n: nat)
    ensures
        n == 0 <==> minimal_be(n).len() == 0,
        n > 0 ==> minimal_be(n)[0] != 0,
    decreases n,
{
    if n > 0 {
        lemma_minimal_be_no_leading_zero(n / 256);
        if n / 256 == 0 {
            assert(minimal_be(n / 256) =~= Seq::empty());
            assert(minimal_be(n)[0] == (n % 256) as u8);
        } else {
            assert(minimal_be(n)[0] == minimal_be(n / 256)[0]);
        }
    }
}

/// Reading a minimal encoding gives the number back.
pub proof fn lemma_be_value_of_minimal_be(n: nat)
    ensures
        be_value(minimal_be(n)) == n,
    decreases n,
{
    if n > 0 {
        lemma_be_value_of_minimal_be(n / 256);
        let m = minimal_be(n);
        assert(m.drop_last() =~= minimal_be(n / 256));
        assert(m.last() == (n % 256) as u8);
    }
}

/// Stripping drops exactly the zero bytes in front: where the first `k` bytes are
/// zero and the next one, if there is one, is not, what is left starts at `k`.
pub proof fn lemma_strip_leading_zeros_skips(bytes: Seq<u8>, k: int)
    requires
        0 <= k <= bytes.len(),
        forall|i: int| 0 <= i < k ==> bytes[i] == 0,
        k < bytes.len() ==> bytes[k] != 0,
    ensures
        strip_leading_zeros(bytes) == bytes.subrange(k, bytes.len() as int),
    decreases k,
{
    if k == 0 {
        assert(bytes.subrange(0, bytes.len() as int) =~= bytes);
    } else {
        let rest = bytes.subrange(1, bytes.len() as int);
        lemma_strip_leading_zeros_skips(rest, k - 1);
        assert(rest.subrange(k - 1, rest.len() as int) =~= bytes.subrange(k, bytes.len() as int));
    }
}

/// A number below 256 to the power `k` has a minimal encoding of at most `k` bytes.
pub proof fn lemma_minimal_be_len(n: nat, k: nat)
    requires
        n < pow256(k),
    ensures
        minimal_be(n).len() <= k,
    decreases k,
{
    if n > 0 {
        lemma_minimal_be_len(n / 256, (k - 1) as nat);
    }
}

/// Stripping never makes a byte string longer.
pub proof fn lemma_strip_leading_zeros_len(bytes: Seq<u8>)
    ensures
        strip_leading_zeros(bytes).len() <= bytes.len(),
    decreases bytes.len(),
{
    if bytes.len() > 0 && bytes[0] == 0 {
        lemma_strip_leading_zeros_len(bytes.subrange(1, bytes.len() as int));
    }
}

/// Two numbers with the same minimal encoding are the same number.
pub proof fn lemma_minimal_be_injective(a: nat, b: nat)
    requires
        minimal_be(a) == minimal_be(b),
    ensures
        a == b,
{
    lemma_be_value_of_minimal_be(a);
    lemma_be_value_of_minimal_be(b);
}

/// A byte string of zeros only strips to the empty string.
pub proof fn lemma_strip_leading_zeros_of_zeros(bytes: Seq<u8>)
    requires
        forall|i: int| 0 <= i < bytes.len() ==> bytes[i] == 0,
    ensures
        strip_leading_zeros(bytes) == Seq::<u8>::empty(),
{
    lemma_strip_leading_zeros_skips(bytes, bytes.len() as int);
    assert(bytes.subrange(bytes.len() as int, bytes.len() as int) =~= Seq::<u8>::empty());
}

/// Stripping a string that got one more byte at its end: the byte is kept, unless
/// it is zero and nothing but zeros went before it.
pub proof fn lemma_strip_leading_zeros_push(bytes: Seq<u8>, last: u8)
    ensures
        strip_leading_zeros(bytes.push(last)) == if strip_leading_zeros(bytes).len() == 0 && last
            == 0 {
            Seq::<u8>::empty()
        } else {
            strip_leading_zeros(bytes).push(last)
        },
    decreases bytes.len(),
{
    let longer = bytes.push(last);
    if bytes.len() == 0 {
        assert(longer.subrange(1, 1) =~= Seq::<u8>::empty());
        assert(strip_leading_zeros(Seq::<u8>::empty()) =~= Seq::<u8>::empty());
        assert(bytes =~= Seq::<u8>::empty());
    } else if bytes[0] == 0 {
        let rest = bytes.subrange(1, bytes.len() as int);
        lemma_strip_leading_zeros_push(rest, last);
        assert(longer.subrange(1, longer.len() as int) =~= rest.push(last));
    } else {
        assert(longer[0] == bytes[0]);
    }
}

/// Stripping the leading zeros gives the minimal encoding of the number that the
/// bytes spell.
pub proof fn lemma_strip_leading_zeros_is_minimal(bytes: Seq<u8>)
    ensures
        strip_leading_zeros(bytes) == minimal_be(be_value(bytes)),
    decreases bytes.len(),
{
    if bytes.len() > 0 {
        let front = bytes.drop_last();
        let last = bytes.last();
        let n = be_value(bytes);
        lemma_strip_leading_zeros_is_minimal(front);
        lemma_strip_leading_zeros_push(front, last);
        lemma_minimal_be_no_leading_zero(be_value(front));
        assert(front.push(last) =~= bytes);
        assert(n == 256 * be_value(front) + last as nat);
        if n > 0 {
            assert(n / 256 == be_value(front));
            assert(n % 256 == last as nat);
        }
    }
}

/// Two byte strings of one length that spell the same number are the same string.
pub proof fn lemma_be_value_injective(a: Seq<u8>, b: Seq<u8>)
    requires
        a.len() == b.len(),
        be_value(a) == be_value(b),
    ensures
        a == b,
    decreases a.len(),
{
    if a.len() > 0 {
        lemma_be_value_injective(a.drop_last(), b.drop_last());
        assert(a =~= a.drop_last().push(a.last()));
        assert(b =~= b.drop_last().push(b.last()));
    } else {
        assert(a =~= b);
    }
}

} // verus!
