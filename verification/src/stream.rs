//! The `rlp` crate's stream encoder, as far as a flat list of byte strings needs it.
//!
//! Nothing in this file is proved: each function states what the crate's source
//! shows of the call that its body makes. The crate writes every length in at most
//! four bytes and cuts off what does not fit, so the functions that frame
//! something ask for a length within [`max_len`].

use vstd::prelude::*;
use rlp::RlpStream;
use crate::big_endian::minimal_be;
use crate::rlp_format::{max_len, rlp_list, rlp_payload};
use crate::uint::{Address, Uint256};

verus! {

#[verifier::external_type_specification]
#[verifier::external_body]
pub struct ExRlpStream(rlp::RlpStream);

/// The byte strings appended to the stream's list so far, in order.
pub uninterp spec fn stream_items(stream: RlpStream) -> Seq<Seq<u8>>;

/// How far the stream's list has come: one of [`stage_fresh`], [`stage_open`] and
/// [`stage_closed`].
pub uninterp spec fn stream_stage(stream: RlpStream) -> nat;

/// The stage of a stream in which no list was begun.
pub open spec fn stage_fresh() -> nat {
    0
}

/// The stage of a stream whose list is open and takes items.
pub open spec fn stage_open() -> nat {
    1
}

/// The stage of a stream whose list is finalized.
pub open spec fn stage_closed() -> nat {
    2
}

/// `RlpStream::new`: a stream with nothing written and no list begun.
#[verifier::external_body]
pub(crate) fn new_stream() -> (stream: RlpStream)
    ensures
        stream_stage(stream) == stage_fresh(),
        stream_items(stream) == Seq::<Seq<u8>>::empty(),
{
    RlpStream::new()
}

/// `RlpStream::begin_unbounded_list` on a fresh stream: opens a list that has no
/// items yet and takes any number of them.
#[verifier::external_body]
pub(crate) fn begin_unbounded_list(stream: &mut RlpStream)
    requires
        stream_stage(*old(stream)) == stage_fresh(),
    ensures
        stream_stage(*final(stream)) == stage_open(),
        stream_items(*final(stream)) == Seq::<Seq<u8>>::empty(),
{
    stream.begin_unbounded_list();
}

/// `RlpStream::append` with a `Vec<u8>`: the bytes become the next item of the
/// open list, as they are. They are framed at once, so they have to be within
/// [`max_len`].
#[verifier::external_body]
pub(crate) fn append_bytes(stream: &mut RlpStream, bytes: &Vec<u8>)
    requires
        stream_stage(*old(stream)) == stage_open(),
        bytes@.len() <= max_len(),
    ensures
        stream_stage(*final(stream)) == stage_open(),
        stream_items(*final(stream)) == stream_items(*old(stream)).push(bytes@),
{
    stream.append(bytes);
}

/// `RlpStream::append` with a `u64`: the next item of the open list is the
/// number's big-endian bytes without the leading zero bytes.
#[verifier::external_body]
pub(crate) fn append_u64(stream: &mut RlpStream, value: u64)
    requires
        stream_stage(*old(stream)) == stage_open(),
    ensures
        stream_stage(*final(stream)) == stage_open(),
        stream_items(*final(stream)) == stream_items(*old(stream)).push(minimal_be(value as nat)),
{
    stream.append(&value);
}

/// `RlpStream::append` with an `ethereum_types::U256` made of the given words: the
/// next item of the open list is the number's big-endian bytes without the leading
/// zero bytes.
#[verifier::external_body]
pub(crate) fn append_u256(stream: &mut RlpStream, value: &Uint256)
    requires
        stream_stage(*old(stream)) == stage_open(),
    ensures
        stream_stage(*final(stream)) == stage_open(),
        stream_items(*final(stream)) == stream_items(*old(stream)).push(minimal_be(value@)),
{
    stream.append(&ethereum_types::U256(value.limbs));
}

/// `RlpStream::append` with an `ethereum_types::H160` made of the given bytes: the
/// next item of the open list is those twenty bytes.
#[verifier::external_body]
pub(crate) fn append_address(stream: &mut RlpStream, address: &Address)
    requires
        stream_stage(*old(stream)) == stage_open(),
    ensures
        stream_stage(*final(stream)) == stage_open(),
        stream_items(*final(stream)) == stream_items(*old(stream)).push(address@),
{
    stream.append(&ethereum_types::H160(address.bytes));
}

/// `RlpStream::finalize_unbounded_list`: closes the open list and keeps its items.
/// The list is framed at once, so its payload has to be within [`max_len`].
#[verifier::external_body]
pub(crate) fn finalize_unbounded_list(stream: &mut RlpStream)
    requires
        stream_stage(*old(stream)) == stage_open(),
        rlp_payload(stream_items(*old(stream))).len() <= max_len(),
    ensures
        stream_stage(*final(stream)) == stage_closed(),
        stream_items(*final(stream)) == stream_items(*old(stream)),
{
    stream.finalize_unbounded_list();
}

/// `RlpStream::out` on a stream whose list is finalized: the bytes written, which
/// are the encoding of that list.
#[verifier::external_body]
pub(crate) fn out(stream: RlpStream) -> (bytes: Vec<u8>)
    requires
        stream_stage(stream) == stage_closed(),
    ensures
        bytes@ == rlp_list(stream_items(stream)),
{
    stream.out()
}

} // verus!
