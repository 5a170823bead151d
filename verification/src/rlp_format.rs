//! The recursive-length-prefix format, for byte strings and for a flat list of them.

use vstd::prelude::*;
use crate::big_endian::{
    lemma_minimal_be_injective,
    lemma_minimal_be_len,
    lemma_minimal_be_no_leading_zero,
    minimal_be,
    pow256,
};

verus! {

/// The longest byte string, and the longest list payload, that can be framed here:
/// a length travels in at most four bytes.
pub open spec fn max_len() -> nat {
    0xffff_ffff
}

/// The bytes that announce a payload of `len` bytes. `base` is `0x80` for a byte
/// string and `0xc0` for a list. Up to 55 the length sits in the first byte; above,
/// the first byte counts the bytes of the minimal big-endian length that follows.
pub open spec fn length_prefix(len: nat, base: u8) -> Seq<u8> {
    if len <= 55 {
        seq![(base + len) as u8]
    } else {
        seq![(base + 55 + minimal_be(len).len()) as u8] + minimal_be(len)
    }
}

/// The encoding of one byte string: a single byte below `0x80` stands for itself,
/// anything else follows its length prefix.
pub open spec fn rlp_string(bytes: Seq<u8>) -> Seq<u8> {
    if bytes.len() == 1 && bytes[0] < 0x80 {
        bytes
    } else {
        length_prefix(bytes.len(), 0x80) + bytes
    }
}

/// The encodings of `items`, one after the other.
pub open spec fn rlp_payload(items: Seq<Seq<u8>>) -> Seq<u8>
    decreases items.len(),
{
    if items.len() == 0 {
        Seq::empty()
    } else {
        rlp_payload(items.drop_last()) + rlp_string(items.last())
    }
}

/// The encoding of the list whose members are the byte strings `items`.
pub open spec fn rlp_list(items: Seq<Seq<u8>>) -> Seq<u8> {
    length_prefix(rlp_payload(items).len(), 0xc0) + rlp_payload(items)
}

/// A framed byte string is never empty and at most five bytes longer than the
/// string itself; up to 55 bytes, it is at most one byte longer.
pub proof fn lemma_rlp_string_len(bytes: Seq<u8>)
    requires
        bytes.len() <= max_len(),
    ensures
        1 <= rlp_string(bytes).len() <= bytes.len() + 5,
        bytes.len() <= 55 ==> rlp_string(bytes).len() <= bytes.len() + 1,
{
    reveal_with_fuel(pow256, 5);
    lemma_minimal_be_len(bytes.len(), 4);
}

/// The payload of a list grows by the encoding of each item that is appended.
pub proof fn lemma_rlp_payload_push(items: Seq<Seq<u8>>, item: Seq<u8>)
    ensures
        rlp_payload(items.push(item)) == rlp_payload(items) + rlp_string(item),
{
    assert(items.push(item).drop_last() =~= items);
}

/// The payload of two lists joined is the two payloads joined.
pub proof fn lemma_rlp_payload_concat(front: Seq<Seq<u8>>, back: Seq<Seq<u8>>)
    ensures
        rlp_payload(front + back) == rlp_payload(front) + rlp_payload(back),
    decreases back.len(),
{
    if back.len() == 0 {
        assert(front + back =~= front);
        assert(rlp_payload(front) + rlp_payload(back) =~= rlp_payload(front));
    } else {
        lemma_rlp_payload_concat(front, back.drop_last());
        assert((front + back).drop_last() =~= front + back.drop_last());
        assert(rlp_payload(front + back) =~= rlp_payload(front) + rlp_payload(back));
    }
}

/// Every item of `items` is short enough to be framed.
pub open spec fn items_fit(items: Seq<Seq<u8>>) -> bool {
    forall|i: int| 0 <= i < items.len() ==> (#[trigger] items[i]).len() <= max_len()
}

/// A length prefix tells its length: where two prefixed byte strings are equal,
/// the lengths announced are equal, and so is what follows the prefixes.
pub proof fn lemma_length_prefix_unique(
    len_a: nat,
    rest_a: Seq<u8>,
    len_b: nat,
    rest_b: Seq<u8>,
    base: u8,
)
    requires
        base == 0x80 || base == 0xc0,
        len_a <= max_len(),
        len_b <= max_len(),
        length_prefix(len_a, base) + rest_a == length_prefix(len_b, base) + rest_b,
    ensures
        len_a == len_b,
        rest_a == rest_b,
{
    reveal_with_fuel(pow256, 5);
    let prefix_a = length_prefix(len_a, base);
    let prefix_b = length_prefix(len_b, base);
    let whole_a = prefix_a + rest_a;
    let whole_b = prefix_b + rest_b;
    let digits_a = minimal_be(len_a);
    let digits_b = minimal_be(len_b);
    lemma_minimal_be_len(len_a, 4);
    lemma_minimal_be_len(len_b, 4);
    lemma_minimal_be_no_leading_zero(len_a);
    lemma_minimal_be_no_leading_zero(len_b);
    assert(whole_a[0] == prefix_a[0]);
    assert(whole_b[0] == prefix_b[0]);
    if len_a <= 55 {
        assert(prefix_a[0] == base + len_a);
        if len_b > 55 {
            assert(prefix_b[0] == base + 55 + digits_b.len());
        }
        assert(len_a == len_b);
    } else {
        assert(prefix_a[0] == base + 55 + digits_a.len());
        if len_b <= 55 {
            assert(prefix_b[0] == base + len_b);
        }
        assert(len_b > 55);
        assert(prefix_b[0] == base + 55 + digits_b.len());
        assert(digits_a.len() == digits_b.len());
        assert(digits_a =~= whole_a.subrange(1, 1 + digits_a.len() as int));
        assert(digits_b =~= whole_b.subrange(1, 1 + digits_b.len() as int));
        lemma_minimal_be_injective(len_a, len_b);
    }
    assert(rest_a =~= whole_a.subrange(prefix_a.len() as int, whole_a.len() as int));
    assert(rest_b =~= whole_b.subrange(prefix_b.len() as int, whole_b.len() as int));
}

/// No framed byte string is the beginning of another: where two framed strings,
/// each followed by more bytes, are equal, the strings are equal and so is what
/// follows them.
pub proof fn lemma_rlp_string_unique(a: Seq<u8>, rest_a: Seq<u8>, b: Seq<u8>, rest_b: Seq<u8>)
    requires
        a.len() <= max_len(),
        b.len() <= max_len(),
        rlp_string(a) + rest_a == rlp_string(b) + rest_b,
    ensures
        a == b,
        rest_a == rest_b,
{
    let whole_a = rlp_string(a) + rest_a;
    let whole_b = rlp_string(b) + rest_b;
    let single_a = a.len() == 1 && a[0] < 0x80;
    let single_b = b.len() == 1 && b[0] < 0x80;
    lemma_rlp_string_len(a);
    lemma_rlp_string_len(b);
    assert(whole_a[0] == rlp_string(a)[0]);
    assert(whole_b[0] == rlp_string(b)[0]);
    lemma_length_prefix_first_byte(a.len(), 0x80);
    lemma_length_prefix_first_byte(b.len(), 0x80);
    if single_a {
        assert(!single_b ==> rlp_string(b)[0] == length_prefix(b.len(), 0x80)[0]);
        assert(single_b);
        assert(a =~= b);
        assert(rest_a =~= whole_a.subrange(1, whole_a.len() as int));
        assert(rest_b =~= whole_b.subrange(1, whole_b.len() as int));
    } else {
        assert(rlp_string(a)[0] == length_prefix(a.len(), 0x80)[0]);
        assert(!single_b);
        assert(whole_a =~= length_prefix(a.len(), 0x80) + (a + rest_a));
        assert(whole_b =~= length_prefix(b.len(), 0x80) + (b + rest_b));
        lemma_length_prefix_unique(a.len(), a + rest_a, b.len(), b + rest_b, 0x80);
        assert(a =~= (a + rest_a).subrange(0, a.len() as int));
        assert(b =~= (b + rest_b).subrange(0, b.len() as int));
        assert(rest_a =~= (a + rest_a).subrange(a.len() as int, (a + rest_a).len() as int));
        assert(rest_b =~= (b + rest_b).subrange(b.len() as int, (b + rest_b).len() as int));
    }
}

/// A length prefix starts at or above its base, and has at most five bytes.
pub proof fn lemma_length_prefix_first_byte(len: nat, base: u8)
    requires
        base == 0x80 || base == 0xc0,
        len <= max_len(),
    ensures
        1 <= length_prefix(len, base).len() <= 5,
        base <= length_prefix(len, base)[0] <= base + 59,
{
    reveal_with_fuel(pow256, 5);
    lemma_minimal_be_len(len, 4);
}

/// The payload of a list starts with the encoding of its first item.
pub proof fn lemma_rlp_payload_first(items: Seq<Seq<u8>>)
    requires
        items.len() > 0,
    ensures
        rlp_payload(items) == rlp_string(items[0]) + rlp_payload(items.drop_first()),
{
    let head = seq![items[0]];
    assert(head + items.drop_first() =~= items);
    lemma_rlp_payload_concat(head, items.drop_first());
    lemma_rlp_payload_push(Seq::empty(), items[0]);
    assert(Seq::<Seq<u8>>::empty().push(items[0]) =~= head);
    assert(rlp_payload(Seq::empty()) + rlp_string(items[0]) =~= rlp_string(items[0]));
}

/// A payload tells its items: two lists with the same payload are the same list.
pub proof fn lemma_rlp_payload_unique(a: Seq<Seq<u8>>, b: Seq<Seq<u8>>)
    requires
        items_fit(a),
        items_fit(b),
        rlp_payload(a) == rlp_payload(b),
    ensures
        a == b,
    decreases a.len(),
{
    if a.len() == 0 {
        if b.len() > 0 {
            lemma_rlp_payload_first(b);
            lemma_rlp_string_len(b[0]);
        }
        assert(a =~= b);
    } else {
        lemma_rlp_payload_first(a);
        lemma_rlp_string_len(a[0]);
        assert(rlp_payload(a).len() >= 1);
        assert(b.len() > 0) by {
            if b.len() == 0 {
                assert(rlp_payload(b).len() == 0);
            }
        }
        lemma_rlp_payload_first(b);
        lemma_rlp_string_unique(a[0], rlp_payload(a.drop_first()), b[0], rlp_payload(b.drop_first()));
        assert(items_fit(a.drop_first())) by {
            assert forall|i: int| 0 <= i < a.drop_first().len() implies (#[trigger] a.drop_first()[i]).len()
                <= max_len() by {
                assert(a.drop_first()[i] == a[i + 1]);
            }
        }
        assert(items_fit(b.drop_first())) by {
            assert forall|i: int| 0 <= i < b.drop_first().len() implies (#[trigger] b.drop_first()[i]).len()
                <= max_len() by {
                assert(b.drop_first()[i] == b[i + 1]);
            }
        }
        lemma_rlp_payload_unique(a.drop_first(), b.drop_first());
        assert(a =~= seq![a[0]] + a.drop_first());
        assert(b =~= seq![b[0]] + b.drop_first());
    }
}

/// An encoded list tells its items: two lists of byte strings with the same
/// encoding are the same list.
pub proof fn lemma_rlp_list_unique(a: Seq<Seq<u8>>, b: Seq<Seq<u8>>)
    requires
        items_fit(a),
        items_fit(b),
        rlp_payload(a).len() <= max_len(),
        rlp_payload(b).len() <= max_len(),
        rlp_list(a) == rlp_list(b),
    ensures
        a == b,
{
    lemma_length_prefix_unique(
        rlp_payload(a).len(),
        rlp_payload(a),
        rlp_payload(b).len(),
        rlp_payload(b),
        0xc0,
    );
    lemma_rlp_payload_unique(a, b);
}

} // verus!
