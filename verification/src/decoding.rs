//! What a reader of the encoded bytes can recover: the encodings tell apart any two
//! transactions, chains and signatures that differ.

use vstd::prelude::*;
use crate::big_endian::{
    be_value,
    lemma_be_value_injective,
    lemma_minimal_be_injective,
    lemma_minimal_be_len,
    lemma_strip_leading_zeros_is_minimal,
    lemma_strip_leading_zeros_len,
    minimal_be,
    pow256,
    strip_leading_zeros,
};
use crate::rlp_format::lemma_rlp_list_unique;
use crate::signature::{eip155_v, raw_r, raw_s};
use crate::transaction::{
    field_items,
    lemma_items_fit,
    recipient_item,
    signed_items,
    signed_payload,
    signing_digest,
    signing_items,
    signing_payload,
    RawTransaction,
    MAX_DATA_LEN,
};

verus! {

/// The digest to sign depends on nothing but what the transaction says and the
/// chain id: equal inputs have equal bytes to hash and equal digests.
pub proof fn lemma_signing_digest_deterministic(
    a: RawTransaction,
    chain_a: u64,
    b: RawTransaction,
    chain_b: u64,
)
    requires
        a@ == b@,
        chain_a == chain_b,
    ensures
        signing_payload(a@, chain_a) == signing_payload(b@, chain_b),
        signing_digest(a@, chain_a) == signing_digest(b@, chain_b),
{
}

/// The recipient's place holds the empty byte string where there is no recipient,
/// and the address's twenty bytes where there is one, be they all zero.
pub proof fn lemma_recipient_item(tx: RawTransaction)
    ensures
        field_items(tx@).len() == 6,
        field_items(tx@)[3] == recipient_item(tx@.to),
        tx.to is None ==> field_items(tx@)[3].len() == 0,
        tx.to matches Some(address) ==> field_items(tx@)[3] == address.bytes@ && field_items(
            tx@,
        )[3].len() == 20,
{
}

/// What six fields encode as tells the transaction: two transactions with the
/// same six byte strings say the same.
pub proof fn lemma_field_items_unique(a: RawTransaction, b: RawTransaction)
    requires
        field_items(a@) == field_items(b@),
    ensures
        a@ == b@,
{
    let items_a = field_items(a@);
    let items_b = field_items(b@);
    assert(items_a[0] == items_b[0]);
    assert(items_a[1] == items_b[1]);
    assert(items_a[2] == items_b[2]);
    assert(items_a[3] == items_b[3]);
    assert(items_a[4] == items_b[4]);
    assert(items_a[5] == items_b[5]);
    lemma_minimal_be_injective(a@.nonce, b@.nonce);
    lemma_minimal_be_injective(a@.gas_price, b@.gas_price);
    lemma_minimal_be_injective(a@.gas, b@.gas);
    lemma_minimal_be_injective(a@.value, b@.value);
    lemma_recipient_item(a);
    lemma_recipient_item(b);
    assert(a@.to == b@.to);
}

/// The bytes that are hashed for signing tell the transaction and the chain: where
/// they are equal, the transactions say the same and the chain ids are equal.
pub proof fn lemma_signing_payload_unique(
    a: RawTransaction,
    chain_a: u64,
    b: RawTransaction,
    chain_b: u64,
)
    requires
        a.data@.len() <= MAX_DATA_LEN,
        b.data@.len() <= MAX_DATA_LEN,
        signing_payload(a@, chain_a) == signing_payload(b@, chain_b),
    ensures
        a@ == b@,
        chain_a == chain_b,
{
    let tail_a = seq![minimal_be(chain_a as nat), Seq::<u8>::empty(), Seq::<u8>::empty()];
    let tail_b = seq![minimal_be(chain_b as nat), Seq::<u8>::empty(), Seq::<u8>::empty()];
    assert(pow256(8) == 0x1_0000_0000_0000_0000) by {
        reveal_with_fuel(pow256, 9);
    }
    lemma_minimal_be_len(chain_a as nat, 8);
    lemma_minimal_be_len(chain_b as nat, 8);
    lemma_items_fit(a, tail_a);
    lemma_items_fit(b, tail_b);
    lemma_rlp_list_unique(signing_items(a@, chain_a), signing_items(b@, chain_b));
    lemma_split_nine(field_items(a@), tail_a, field_items(b@), tail_b);
    lemma_field_items_unique(a, b);
    assert(tail_a[0] == tail_b[0]);
    lemma_minimal_be_injective(chain_a as nat, chain_b as nat);
}

/// A transaction without a recipient and one with a recipient never share the
/// bytes that are hashed for signing, whatever the address and the chains.
pub proof fn lemma_recipient_distinguishable(
    a: RawTransaction,
    chain_a: u64,
    b: RawTransaction,
    chain_b: u64,
)
    requires
        a.data@.len() <= MAX_DATA_LEN,
        b.data@.len() <= MAX_DATA_LEN,
        a.to is None,
        b.to is Some,
    ensures
        field_items(a@)[3] != field_items(b@)[3],
        signing_payload(a@, chain_a) != signing_payload(b@, chain_b),
{
    lemma_recipient_item(a);
    lemma_recipient_item(b);
    if signing_payload(a@, chain_a) == signing_payload(b@, chain_b) {
        lemma_signing_payload_unique(a, chain_a, b, chain_b);
    }
}

/// A signed transaction's bytes tell what was signed and with what: where two wire
/// forms are equal, the transactions say the same, the recovery values are equal,
/// and the scalars are equal byte for byte. With recovery bytes of 0 or 1, the
/// chain ids and the whole signatures are equal too.
pub proof fn lemma_signed_payload_unique(
    a: RawTransaction,
    signature_a: Seq<u8>,
    chain_a: u64,
    b: RawTransaction,
    signature_b: Seq<u8>,
    chain_b: u64,
)
    requires
        a.data@.len() <= MAX_DATA_LEN,
        b.data@.len() <= MAX_DATA_LEN,
        signature_a.len() == 65,
        signature_b.len() == 65,
        signed_payload(a@, signature_a, chain_a) == signed_payload(b@, signature_b, chain_b),
    ensures
        a@ == b@,
        eip155_v(signature_a[0], chain_a) == eip155_v(signature_b[0], chain_b),
        raw_r(signature_a) == raw_r(signature_b),
        raw_s(signature_a) == raw_s(signature_b),
        signature_a[0] <= 1 && signature_b[0] <= 1 ==> chain_a == chain_b && signature_a
            == signature_b,
{
    let v_a = eip155_v(signature_a[0], chain_a);
    let v_b = eip155_v(signature_b[0], chain_b);
    let r_a = strip_leading_zeros(raw_r(signature_a));
    let r_b = strip_leading_zeros(raw_r(signature_b));
    let s_a = strip_leading_zeros(raw_s(signature_a));
    let s_b = strip_leading_zeros(raw_s(signature_b));
    let tail_a = seq![minimal_be(v_a), r_a, s_a];
    let tail_b = seq![minimal_be(v_b), r_b, s_b];
    assert(pow256(9) == 0x1_00_0000_0000_0000_0000) by {
        reveal_with_fuel(pow256, 10);
    }
    lemma_minimal_be_len(v_a, 9);
    lemma_minimal_be_len(v_b, 9);
    lemma_strip_leading_zeros_len(raw_r(signature_a));
    lemma_strip_leading_zeros_len(raw_r(signature_b));
    lemma_strip_leading_zeros_len(raw_s(signature_a));
    lemma_strip_leading_zeros_len(raw_s(signature_b));
    lemma_items_fit(a, tail_a);
    lemma_items_fit(b, tail_b);
    lemma_rlp_list_unique(signed_items(a@, v_a, r_a, s_a), signed_items(b@, v_b, r_b, s_b));
    lemma_split_nine(field_items(a@), tail_a, field_items(b@), tail_b);
    lemma_field_items_unique(a, b);
    assert(tail_a[0] == tail_b[0]);
    assert(tail_a[1] == tail_b[1]);
    assert(tail_a[2] == tail_b[2]);
    lemma_minimal_be_injective(v_a, v_b);
    lemma_same_scalar(raw_r(signature_a), raw_r(signature_b));
    lemma_same_scalar(raw_s(signature_a), raw_s(signature_b));
    if signature_a[0] <= 1 && signature_b[0] <= 1 {
        assert(signature_a[0] == signature_b[0]);
        assert forall|i: int| 0 <= i < 65 implies signature_a[i] == signature_b[i] by {
            if 1 <= i < 33 {
                assert(raw_r(signature_a)[i - 1] == signature_a[i]);
                assert(raw_r(signature_b)[i - 1] == signature_b[i]);
            } else if 33 <= i {
                assert(raw_s(signature_a)[i - 33] == signature_a[i]);
                assert(raw_s(signature_b)[i - 33] == signature_b[i]);
            }
        }
        assert(signature_a =~= signature_b);
    }
}

/// Two scalars of one length that strip to the same bytes are the same scalar.
proof fn lemma_same_scalar(a: Seq<u8>, b: Seq<u8>)
    requires
        a.len() == b.len(),
        strip_leading_zeros(a) == strip_leading_zeros(b),
    ensures
        a == b,
{
    lemma_strip_leading_zeros_is_minimal(a);
    lemma_strip_leading_zeros_is_minimal(b);
    lemma_minimal_be_injective(be_value(a), be_value(b));
    lemma_be_value_injective(a, b);
}

/// Two lists of six and three items that are equal when joined are equal part by
/// part.
proof fn lemma_split_nine(
    front_a: Seq<Seq<u8>>,
    tail_a: Seq<Seq<u8>>,
    front_b: Seq<Seq<u8>>,
    tail_b: Seq<Seq<u8>>,
)
    requires
        front_a.len() == 6,
        front_b.len() == 6,
        front_a + tail_a == front_b + tail_b,
    ensures
        front_a == front_b,
        tail_a == tail_b,
{
    let whole_a = front_a + tail_a;
    let whole_b = front_b + tail_b;
    assert(front_a =~= whole_a.subrange(0, 6));
    assert(front_b =~= whole_b.subrange(0, 6));
    assert(tail_a =~= whole_a.subrange(6, whole_a.len() as int));
    assert(tail_b =~= whole_b.subrange(6, whole_b.len() as int));
}

} // verus!
