//! The transaction, the digest that authorizes it on one chain, and its signed
//! wire form.

use vstd::prelude::*;
use vstd::array::array_as_slice;
use vstd::slice::slice_to_vec;
use rlp::RlpStream;
use crate::big_endian::{
    lemma_minimal_be_len,
    lemma_strip_leading_zeros_len,
    minimal_be,
    pow256,
    strip_leading_zeros,
};
use crate::keccak::{keccak256, keccak256_digest};
use crate::rlp_format::{
    items_fit,
    lemma_rlp_payload_concat,
    lemma_rlp_payload_push,
    lemma_rlp_string_len,
    max_len,
    rlp_list,
    rlp_payload,
};
use crate::signature::{eip155_v, prepare_signature, raw_r, raw_s, SignatureError};
use crate::stream::{
    append_address,
    append_bytes,
    append_u256,
    append_u64,
    begin_unbounded_list,
    finalize_unbounded_list,
    new_stream,
    out,
    stage_open,
    stream_items,
    stream_stage,
};
use crate::uint::{Address, Uint256};

verus! {

/// The most input data a transaction can carry and still be encoded: the framed
/// list has to stay within a length of four bytes.
pub const MAX_DATA_LEN: usize = 0xffff_fe00;

/// A transaction that is not yet signed.
#[derive(Clone, Debug, PartialEq, Eq)]
pub struct RawTransaction {
    /// The sender's next sequence number.
    pub nonce: Uint256,
    /// The recipient; `None` creates a contract.
    pub to: Option<Address>,
    /// The amount transferred.
    pub value: Uint256,
    /// The price paid per unit of gas.
    pub gas_price: Uint256,
    /// The most gas the transaction may use.
    pub gas: Uint256,
    /// The call input, or the code of the contract to create.
    pub data: Vec<u8>,
}

/// What a transaction says, apart from how it is stored.
pub struct TransactionModel {
    pub nonce: nat,
    pub to: Option<Seq<u8>>,
    pub value: nat,
    pub gas_price: nat,
    pub gas: nat,
    pub data: Seq<u8>,
}

impl View for RawTransaction {
    type V = TransactionModel;

    open spec fn view(&self) -> TransactionModel {
        TransactionModel {
            nonce: self.nonce@,
            to: match self.to {
                Some(address) => Some(address@),
                None => None,
            },
            value: self.value@,
            gas_price: self.gas_price@,
            gas: self.gas@,
            data: self.data@,
        }
    }
}

/// The byte string that stands in the recipient's place: the address, or nothing
/// where there is no recipient.
pub open spec fn recipient_item(to: Option<Seq<u8>>) -> Seq<u8> {
    match to {
        Some(address) => address,
        None => Seq::empty(),
    }
}

/// The six byte strings a transaction is encoded as, in their order on the wire:
/// nonce, gas price, gas, recipient, value, data. Each number stands as its
/// minimal big-endian bytes.
pub open spec fn field_items(tx: TransactionModel) -> Seq<Seq<u8>> {
    seq![
        minimal_be(tx.nonce),
        minimal_be(tx.gas_price),
        minimal_be(tx.gas),
        recipient_item(tx.to),
        minimal_be(tx.value),
        tx.data,
    ]
}

/// The nine byte strings that are hashed for signing: the six fields, the chain
/// id, and two empty strings where the signature's scalars will stand.
pub open spec fn signing_items(tx: TransactionModel, chain_id: u64) -> Seq<Seq<u8>> {
    field_items(tx) + seq![minimal_be(chain_id as nat), Seq::<u8>::empty(), Seq::<u8>::empty()]
}

/// The bytes that are hashed for signing.
pub open spec fn signing_payload(tx: TransactionModel, chain_id: u64) -> Seq<u8> {
    rlp_list(signing_items(tx, chain_id))
}

/// The digest that a signer signs to authorize `tx` on the chain `chain_id`.
pub open spec fn signing_digest(tx: TransactionModel, chain_id: u64) -> Seq<u8> {
    keccak256_digest(signing_payload(tx, chain_id))
}

/// The nine byte strings of a signed transaction: the six fields, the recovery
/// value, and the two scalars.
pub open spec fn signed_items(tx: TransactionModel, v: nat, r: Seq<u8>, s: Seq<u8>) -> Seq<
    Seq<u8>,
> {
    field_items(tx) + seq![minimal_be(v), r, s]
}

/// The wire form of `tx` signed with the 65-byte `signature` for the chain
/// `chain_id`.
pub open spec fn signed_payload(tx: TransactionModel, signature: Seq<u8>, chain_id: u64) -> Seq<
    u8,
> {
    rlp_list(
        signed_items(
            tx,
            eip155_v(signature[0], chain_id),
            strip_leading_zeros(raw_r(signature)),
            strip_leading_zeros(raw_s(signature)),
        ),
    )
}

/// The six fields of a transaction take at most 158 bytes more than its data.
pub proof fn lemma_field_payload_len(tx: RawTransaction)
    requires
        tx.data@.len() <= max_len(),
    ensures
        items_fit(field_items(tx@)),
        rlp_payload(field_items(tx@)).len() <= tx.data@.len() + 158,
{
    let items = field_items(tx@);
    tx.nonce.lemma_fits_32_bytes();
    tx.gas_price.lemma_fits_32_bytes();
    tx.gas.lemma_fits_32_bytes();
    tx.value.lemma_fits_32_bytes();
    lemma_minimal_be_len(tx.nonce@, 32);
    lemma_minimal_be_len(tx.gas_price@, 32);
    lemma_minimal_be_len(tx.gas@, 32);
    lemma_minimal_be_len(tx.value@, 32);
    assert(forall|i: int| 0 <= i < 6 ==> (#[trigger] items[i]).len() <= max_len());
    lemma_rlp_string_len(items[0]);
    lemma_rlp_string_len(items[1]);
    lemma_rlp_string_len(items[2]);
    lemma_rlp_string_len(items[3]);
    lemma_rlp_string_len(items[4]);
    lemma_rlp_string_len(items[5]);
    let e = Seq::<Seq<u8>>::empty();
    assert(items =~= e.push(items[0]).push(items[1]).push(items[2]).push(items[3]).push(
        items[4],
    ).push(items[5]));
    lemma_rlp_payload_push(e, items[0]);
    lemma_rlp_payload_push(e.push(items[0]), items[1]);
    lemma_rlp_payload_push(e.push(items[0]).push(items[1]), items[2]);
    lemma_rlp_payload_push(e.push(items[0]).push(items[1]).push(items[2]), items[3]);
    lemma_rlp_payload_push(
        e.push(items[0]).push(items[1]).push(items[2]).push(items[3]),
        items[4],
    );
    lemma_rlp_payload_push(
        e.push(items[0]).push(items[1]).push(items[2]).push(items[3]).push(items[4]),
        items[5],
    );
}

impl Default for RawTransaction {
    /// The transaction of zeros: no recipient, no data, every number zero.
    fn default() -> (tx: RawTransaction)
        ensures
            tx@ == (TransactionModel {
                nonce: 0,
                to: None,
                value: 0,
                gas_price: 0,
                gas: 0,
                data: Seq::empty(),
            }),
    {
        RawTransaction {
            nonce: Uint256::zero(),
            to: None,
            value: Uint256::zero(),
            gas_price: Uint256::zero(),
            gas: Uint256::zero(),
            data: Vec::new(),
        }
    }
}

impl RawTransaction {
    /// Appends the six fields to the open list of `stream`, in their order on the
    /// wire.
    pub(crate) fn encode(&self, stream: &mut RlpStream)
        requires
            stream_stage(*old(stream)) == stage_open(),
            self.data@.len() <= max_len(),
        ensures
            stream_stage(*final(stream)) == stage_open(),
            stream_items(*final(stream)) == stream_items(*old(stream)) + field_items(self@),
    {
        append_u256(stream, &self.nonce);
        append_u256(stream, &self.gas_price);
        append_u256(stream, &self.gas);
        match &self.to {
            Some(address) => {
                append_address(stream, address);
            },
            None => {
                let nothing: Vec<u8> = Vec::new();
                append_bytes(stream, &nothing);
            },
        }
        append_u256(stream, &self.value);
        append_bytes(stream, &self.data);
        assert(stream_items(*stream) =~= stream_items(*old(stream)) + field_items(self@));
    }

    /// The bytes that are hashed for signing on the chain `chain_id`: the list of
    /// the six fields, the chain id and two empty placeholders for the scalars.
    pub fn encode_for_signing(&self, chain_id: u64) -> (bytes: Vec<u8>)
        requires
            self.data@.len() <= MAX_DATA_LEN,
        ensures
            bytes@ == signing_payload(self@, chain_id),
    {
        let mut stream = new_stream();
        begin_unbounded_list(&mut stream);
        self.encode(&mut stream);
        append_u64(&mut stream, chain_id);
        append_u256(&mut stream, &Uint256::zero());
        append_u256(&mut stream, &Uint256::zero());
        proof {
            let tail = seq![minimal_be(chain_id as nat), Seq::<u8>::empty(), Seq::<u8>::empty()];
            assert(stream_items(stream) =~= signing_items(self@, chain_id));
            assert(pow256(8) == 0x1_0000_0000_0000_0000) by {
                reveal_with_fuel(pow256, 9);
            }
            lemma_minimal_be_len(chain_id as nat, 8);
            lemma_items_fit(*self, tail);
        }
        finalize_unbounded_list(&mut stream);
        out(stream)
    }

    /// The digest to sign for the chain `chain_id`: the Keccak-256 hash of the
    /// bytes that [`RawTransaction::encode_for_signing`] gives.
    pub fn hash(&self, chain_id: u64) -> (digest: Vec<u8>)
        requires
            self.data@.len() <= MAX_DATA_LEN,
        ensures
            digest@ == signing_digest(self@, chain_id),
            digest@.len() == 32,
    {
        let payload = self.encode_for_signing(chain_id);
        let digest = keccak256(payload.as_slice());
        slice_to_vec(array_as_slice(&digest))
    }

    /// The wire form of the transaction signed with `signature` for the chain
    /// `chain_id`: the list of the six fields, the recovery value and the two
    /// scalars in their shortest form. A signature that does not have 65 bytes is
    /// turned down.
    pub fn encode_signed_tx(&self, signature: Vec<u8>, chain_id: u64) -> (outcome: Result<
        Vec<u8>,
        SignatureError,
    >)
        requires
            self.data@.len() <= MAX_DATA_LEN,
        ensures
            signature@.len() == 65 <==> outcome is Ok,
            outcome matches Ok(bytes) ==> bytes@ == signed_payload(self@, signature@, chain_id),
            outcome matches Err(e) ==> e == SignatureError::InvalidLength(signature.len()),
    {
        let (v, r, s) = match prepare_signature(signature.as_slice(), chain_id) {
            Ok(parts) => parts,
            Err(e) => {
                return Err(e);
            },
        };
        proof {
            lemma_strip_leading_zeros_len(raw_r(signature@));
            lemma_strip_leading_zeros_len(raw_s(signature@));
        }
        let mut stream = new_stream();
        begin_unbounded_list(&mut stream);
        self.encode(&mut stream);
        append_u256(&mut stream, &Uint256::from_u128(v));
        append_bytes(&mut stream, &r);
        append_bytes(&mut stream, &s);
        proof {
            let tail = seq![minimal_be(v as nat), r@, s@];
            assert(stream_items(stream) =~= signed_items(self@, v as nat, r@, s@));
            assert(pow256(9) == 0x1_00_0000_0000_0000_0000) by {
                reveal_with_fuel(pow256, 10);
            }
            lemma_minimal_be_len(v as nat, 9);
            lemma_items_fit(*self, tail);
        }
        finalize_unbounded_list(&mut stream);
        Ok(out(stream))
    }
}

/// A transaction whose data is within [`MAX_DATA_LEN`] can be framed together with
/// three more items of at most 33 bytes each: every item is short enough, and so
/// is the payload of the list.
pub proof fn lemma_items_fit(tx: RawTransaction, tail: Seq<Seq<u8>>)
    requires
        tx.data@.len() <= MAX_DATA_LEN,
        tail.len() == 3,
        tail[0].len() <= 33,
        tail[1].len() <= 33,
        tail[2].len() <= 33,
    ensures
        items_fit(field_items(tx@) + tail),
        rlp_payload(field_items(tx@) + tail).len() <= max_len(),
{
    lemma_field_payload_len(tx);
    lemma_rlp_payload_concat(field_items(tx@), tail);
    let e = Seq::<Seq<u8>>::empty();
    assert(tail =~= e.push(tail[0]).push(tail[1]).push(tail[2]));
    lemma_rlp_payload_push(e, tail[0]);
    lemma_rlp_payload_push(e.push(tail[0]), tail[1]);
    lemma_rlp_payload_push(e.push(tail[0]).push(tail[1]), tail[2]);
    lemma_rlp_string_len(tail[0]);
    lemma_rlp_string_len(tail[1]);
    lemma_rlp_string_len(tail[2]);
}

} // verus!
