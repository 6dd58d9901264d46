//! Authenticators of a blockchain client: how the signers of a transaction
//! prove their authority, and how that proof is laid out on the wire.
//!
//! Every codec in this crate is a pair of total functions on plain values.
//! The compact form is a byte string that starts with a scheme tag; the
//! readable form is a record of strings and integers. Decoders never read
//! past their input and answer malformed input with a [`error::CodecError`].

pub mod address_seed;
pub mod bitmap;
pub mod bytes;
pub mod decimal;
pub mod error;
pub mod identifier;
pub mod keys;
pub mod multisig;
pub mod primitives;
pub mod readable;
pub mod scheme;
pub mod simple;
pub mod text;
pub mod transaction;
pub mod user_signature;
pub mod wire;
pub mod zklogin;
