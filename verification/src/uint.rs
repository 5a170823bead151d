//! The fixed-width values a transaction carries: 256-bit numbers and addresses.

use vstd::prelude::*;
use crate::big_endian::pow256;

verus! {

/// Two to the power 64: the weight of one word.
pub open spec fn word_base() -> nat {
    0x1_0000_0000_0000_0000
}

/// An unsigned 256-bit number, held as four 64-bit words, least significant first.
#[derive(Clone, Copy, Debug, PartialEq, Eq)]
pub struct Uint256 {
    pub limbs: [u64; 4],
}

impl View for Uint256 {
    type V = nat;

    /// The number that the four words spell.
    open spec fn view(&self) -> nat {
        self.limbs[0] as nat + word_base() * (self.limbs[1] as nat + word_base() * (
        self.limbs[2] as nat + word_base() * (self.limbs[3] as nat)))
    }
}

/// A 160-bit account address.
#[derive(Clone, Copy, Debug, PartialEq, Eq)]
pub struct Address {
    pub bytes: [u8; 20],
}

impl View for Address {
    type V = Seq<u8>;

    /// The twenty bytes, in order.
    open spec fn view(&self) -> Seq<u8> {
        self.bytes@
    }
}

impl Uint256 {
    /// The number zero.
    pub fn zero() -> (number: Uint256)
        ensures
            number@ == 0,
    {
        Uint256 { limbs: [0, 0, 0, 0] }
    }

    /// The 256-bit number equal to `value`.
    pub fn from_u64(value: u64) -> (number: Uint256)
        ensures
            number@ == value,
    {
        Uint256 { limbs: [value, 0, 0, 0] }
    }

    /// The 256-bit number equal to `value`.
    pub fn from_u128(value: u128) -> (number: Uint256)
        ensures
            number@ == value,
    {
        let low: u64 = (value % 0x1_0000_0000_0000_0000) as u64;
        let high: u64 = (value / 0x1_0000_0000_0000_0000) as u64;
        Uint256 { limbs: [low, high, 0, 0] }
    }

    /// A 256-bit number fits in 32 bytes.
    pub proof fn lemma_fits_32_bytes(self)
        ensures
            self@ < pow256(32),
    {
        let w0 = self.limbs[0] as nat;
        let w1 = self.limbs[1] as nat;
        let w2 = self.limbs[2] as nat;
        let w3 = self.limbs[3] as nat;
        assert(w0 < word_base() && w1 < word_base() && w2 < word_base() && w3 < word_base());
        let t2 = w2 + 0x1_0000_0000_0000_0000 * w3;
        let t1 = w1 + 0x1_0000_0000_0000_0000 * t2;
        assert(t2 < 0x1_0000_0000_0000_0000_0000_0000_0000_0000);
        assert(t1 < 0x1_0000_0000_0000_0000_0000_0000_0000_0000_0000_0000_0000_0000);
        assert(self@ == w0 + 0x1_0000_0000_0000_0000 * t1);
        assert(pow256(32)
            == 0x1_0000_0000_0000_0000_0000_0000_0000_0000_0000_0000_0000_0000_0000_0000_0000_0000)
            by {
            reveal_with_fuel(pow256, 33);
        }
    }
}

} // verus!
