//! Turning a raw 65-byte signature into the three numbers a signed transaction
//! carries: the chain-aware recovery value and the two curve scalars.

use vstd::prelude::*;
use vstd::slice::{slice_subrange, slice_to_vec};
use crate::big_endian::{lemma_strip_leading_zeros_skips, strip_leading_zeros};

verus! {

/// The length of a raw signature: one recovery byte, then two scalars.
pub const SIGNATURE_LEN: usize = 65;

/// The length of one scalar of a raw signature.
pub const PART_LEN: usize = 32;

/// Why a signature was turned down.
#[derive(Clone, Copy, Debug, PartialEq, Eq, Structural)]
pub enum SignatureError {
    /// The raw signature does not have 65 bytes; holds the length it has.
    InvalidLength(usize),
    /// A scalar does not have 32 bytes; holds the length it has.
    InvalidPartLength(usize),
}

/// The recovery value that binds a signature to a chain: the recovery byte, plus
/// twice the chain id, plus 35.
pub open spec fn eip155_v(recovery_byte: u8, chain_id: u64) -> nat {
    (recovery_byte as nat) + 2 * (chain_id as nat) + 35
}

/// The first scalar of a 65-byte signature, as it stands there.
pub open spec fn raw_r(signature: Seq<u8>) -> Seq<u8> {
    signature.subrange(1, 33)
}

/// The second scalar of a 65-byte signature, as it stands there.
pub open spec fn raw_s(signature: Seq<u8>) -> Seq<u8> {
    signature.subrange(33, 65)
}

/// Brings one 32-byte scalar into its shortest form: the zero bytes in front are
/// dropped, so a scalar of zeros only becomes empty. A `part` of another length is
/// turned down and left as it was.
pub fn prepare_signature_part(part: &mut Vec<u8>) -> (outcome: Result<(), SignatureError>)
    ensures
        old(part)@.len() == 32 <==> outcome is Ok,
        outcome is Ok ==> final(part)@ == strip_leading_zeros(old(part)@),
        outcome matches Err(e) ==> final(part)@ == old(part)@ && e
            == SignatureError::InvalidPartLength(old(part).len()),
{
    let len = part.len();
    if len != PART_LEN {
        return Err(SignatureError::InvalidPartLength(len));
    }
    let mut zeros: usize = 0;
    while zeros < len && part[zeros] == 0
        invariant
            len == part@.len(),
            zeros <= len,
            forall|i: int| 0 <= i < zeros ==> part@[i] == 0,
        decreases len - zeros,
    {
        zeros = zeros + 1;
    }
    proof {
        lemma_strip_leading_zeros_skips(part@, zeros as int);
    }
    let rest = part.split_off(zeros);
    *part = rest;
    Ok(())
}

/// Splits a raw signature into the recovery value for `chain_id` and the two
/// scalars in their shortest form. A signature that does not have 65 bytes is
/// turned down.
pub fn prepare_signature(signature: &[u8], chain_id: u64) -> (outcome: Result<
    (u128, Vec<u8>, Vec<u8>),
    SignatureError,
>)
    ensures
        signature@.len() == 65 <==> outcome is Ok,
        outcome matches Ok((v, r, s)) ==> {
            &&& v == eip155_v(signature@[0], chain_id)
            &&& r@ == strip_leading_zeros(raw_r(signature@))
            &&& s@ == strip_leading_zeros(raw_s(signature@))
        },
        outcome matches Err(e) ==> e == SignatureError::InvalidLength(signature.len()),
{
    if signature.len() != SIGNATURE_LEN {
        return Err(SignatureError::InvalidLength(signature.len()));
    }
    let v: u128 = signature[0] as u128 + (chain_id as u128) * 2 + 35;
    let mut r = slice_to_vec(slice_subrange(signature, 1, 33));
    let mut s = slice_to_vec(slice_subrange(signature, 33, 65));
    match prepare_signature_part(&mut r) {
        Ok(()) => {},
        Err(e) => {
            return Err(e);
        },
    }
    match prepare_signature_part(&mut s) {
        Ok(()) => {},
        Err(e) => {
            return Err(e);
        },
    }
    Ok((v, r, s))
}

} // verus!
