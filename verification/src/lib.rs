//! Encoding of legacy Ethereum transactions with chain-aware signatures.
//!
//! A [`RawTransaction`] is turned into the digest that a signer signs
//! ([`RawTransaction::hash`]) and, once a signature is at hand, into the bytes
//! that go on the wire ([`RawTransaction::encode_signed_tx`]).

pub mod big_endian;
pub mod decoding;
pub mod keccak;
pub mod rlp_format;
pub mod signature;
pub mod stream;
pub mod transaction;
pub mod uint;

pub use crate::signature::SignatureError;
pub use crate::transaction::RawTransaction;
pub use crate::uint::{Address, Uint256};
