//! Keys and signatures of the raw schemes: byte strings of a fixed length,
//! with nothing known of them but that length.

use vstd::prelude::*;
use crate::bytes::array_from_slice;

verus! {

/// An Ed25519 public key.
#[derive(Clone, Copy, Debug, PartialEq, Eq, Hash)]
pub struct Ed25519PublicKey {
    pub bytes: [u8; 32],
}

impl View for Ed25519PublicKey {
    type V = Seq<u8>;

    open spec fn view(&self) -> Seq<u8> {
        self.bytes@
    }
}

impl Ed25519PublicKey {
    /// The length in bytes.
    pub const LENGTH: usize = 32;

    /// Wraps the bytes.
    pub fn new(bytes: [u8; 32]) -> (value: Ed25519PublicKey)
        ensures
            value.bytes == bytes,
    {
        Ed25519PublicKey { bytes }
    }

    /// Reads the bytes, which must be exactly 32.
    pub fn from_bytes(bytes: &[u8]) -> (value: Option<Ed25519PublicKey>)
        ensures
            value is Some <==> bytes@.len() == 32,
            value matches Some(v) ==> v@ == bytes@,
    {
        match array_from_slice::<32>(bytes) {
            Some(bytes) => Some(Ed25519PublicKey { bytes }),
            None => None,
        }
    }

    /// The bytes.
    pub fn as_bytes(&self) -> (bytes: &[u8])
        ensures
            bytes@ == self@,
            bytes@.len() == 32,
    {
        self.bytes.as_slice()
    }
}

/// An Ed25519 signature.
#[derive(Clone, Copy, Debug, PartialEq, Eq, Hash)]
pub struct Ed25519Signature {
    pub bytes: [u8; 64],
}

impl View for Ed25519Signature {
    type V = Seq<u8>;

    open spec fn view(&self) -> Seq<u8> {
        self.bytes@
    }
}

impl Ed25519Signature {
    /// The length in bytes.
    pub const LENGTH: usize = 64;

    /// Wraps the bytes.
    pub fn new(bytes: [u8; 64]) -> (value: Ed25519Signature)
        ensures
            value.bytes == bytes,
    {
        Ed25519Signature { bytes }
    }

    /// Reads the bytes, which must be exactly 64.
    pub fn from_bytes(bytes: &[u8]) -> (value: Option<Ed25519Signature>)
        ensures
            value is Some <==> bytes@.len() == 64,
            value matches Some(v) ==> v@ == bytes@,
    {
        match array_from_slice::<64>(bytes) {
            Some(bytes) => Some(Ed25519Signature { bytes }),
            None => None,
        }
    }

    /// The bytes.
    pub fn as_bytes(&self) -> (bytes: &[u8])
        ensures
            bytes@ == self@,
            bytes@.len() == 64,
    {
        self.bytes.as_slice()
    }
}

/// A compressed Secp256k1 public key.
#[derive(Clone, Copy, Debug, PartialEq, Eq, Hash)]
pub struct Secp256k1PublicKey {
    pub bytes: [u8; 33],
}

impl View for Secp256k1PublicKey {
    type V = Seq<u8>;

    open spec fn view(&self) -> Seq<u8> {
        self.bytes@
    }
}

impl Secp256k1PublicKey {
    /// The length in bytes.
    pub const LENGTH: usize = 33;

    /// Wraps the bytes.
    pub fn new(bytes: [u8; 33]) -> (value: Secp256k1PublicKey)
        ensures
            value.bytes == bytes,
    {
        Secp256k1PublicKey { bytes }
    }

    /// Reads the bytes, which must be exactly 33.
    pub fn from_bytes(bytes: &[u8]) -> (value: Option<Secp256k1PublicKey>)
        ensures
            value is Some <==> bytes@.len() == 33,
            value matches Some(v) ==> v@ == bytes@,
    {
        match array_from_slice::<33>(bytes) {
            Some(bytes) => Some(Secp256k1PublicKey { bytes }),
            None => None,
        }
    }

    /// The bytes.
    pub fn as_bytes(&self) -> (bytes: &[u8])
        ensures
            bytes@ == self@,
            bytes@.len() == 33,
    {
        self.bytes.as_slice()
    }
}

/// A Secp256k1 signature.
#[derive(Clone, Copy, Debug, PartialEq, Eq, Hash)]
pub struct Secp256k1Signature {
    pub bytes: [u8; 64],
}

impl View for Secp256k1Signature {
    type V = Seq<u8>;

    open spec fn view(&self) -> Seq<u8> {
        self.bytes@
    }
}

impl Secp256k1Signature {
    /// The length in bytes.
    pub const LENGTH: usize = 64;

    /// Wraps the bytes.
    pub fn new(bytes: [u8; 64]) -> (value: Secp256k1Signature)
        ensures
            value.bytes == bytes,
    {
        Secp256k1Signature { bytes }
    }

    /// Reads the bytes, which must be exactly 64.
    pub fn from_bytes(bytes: &[u8]) -> (value: Option<Secp256k1Signature>)
        ensures
            value is Some <==> bytes@.len() == 64,
            value matches Some(v) ==> v@ == bytes@,
    {
        match array_from_slice::<64>(bytes) {
            Some(bytes) => Some(Secp256k1Signature { bytes }),
            None => None,
        }
    }

    /// The bytes.
    pub fn as_bytes(&self) -> (bytes: &[u8])
        ensures
            bytes@ == self@,
            bytes@.len() == 64,
    {
        self.bytes.as_slice()
    }
}

/// A compressed Secp256r1 public key.
#[derive(Clone, Copy, Debug, PartialEq, Eq, Hash)]
pub struct Secp256r1PublicKey {
    pub bytes: [u8; 33],
}

impl View for Secp256r1PublicKey {
    type V = Seq<u8>;

    open spec fn view(&self) -> Seq<u8> {
        self.bytes@
    }
}

impl Secp256r1PublicKey {
    /// The length in bytes.
    pub const LENGTH: usize = 33;

    /// Wraps the bytes.
    pub fn new(bytes: [u8; 33]) -> (value: Secp256r1PublicKey)
        ensures
            value.bytes == bytes,
    {
        Secp256r1PublicKey { bytes }
    }

    /// Reads the bytes, which must be exactly 33.
    pub fn from_bytes(bytes: &[u8]) -> (value: Option<Secp256r1PublicKey>)
        ensures
            value is Some <==> bytes@.len() == 33,
            value matches Some(v) ==> v@ == bytes@,
    {
        match array_from_slice::<33>(bytes) {
            Some(bytes) => Some(Secp256r1PublicKey { bytes }),
            None => None,
        }
    }

    /// The bytes.
    pub fn as_bytes(&self) -> (bytes: &[u8])
        ensures
            bytes@ == self@,
            bytes@.len() == 33,
    {
        self.bytes.as_slice()
    }
}

/// A Secp256r1 signature.
#[derive(Clone, Copy, Debug, PartialEq, Eq, Hash)]
pub struct Secp256r1Signature {
    pub bytes: [u8; 64],
}

impl View for Secp256r1Signature {
    type V = Seq<u8>;

    open spec fn view(&self) -> Seq<u8> {
        self.bytes@
    }
}

impl Secp256r1Signature {
    /// The length in bytes.
    pub const LENGTH: usize = 64;

    /// Wraps the bytes.
    pub fn new(bytes: [u8; 64]) -> (value: Secp256r1Signature)
        ensures
            value.bytes == bytes,
    {
        Secp256r1Signature { bytes }
    }

    /// Reads the bytes, which must be exactly 64.
    pub fn from_bytes(bytes: &[u8]) -> (value: Option<Secp256r1Signature>)
        ensures
            value is Some <==> bytes@.len() == 64,
            value matches Some(v) ==> v@ == bytes@,
    {
        match array_from_slice::<64>(bytes) {
            Some(bytes) => Some(Secp256r1Signature { bytes }),
            None => None,
        }
    }

    /// The bytes.
    pub fn as_bytes(&self) -> (bytes: &[u8])
        ensures
            bytes@ == self@,
            bytes@.len() == 64,
    {
        self.bytes.as_slice()
    }
}

/// A BLS12-381 public key in the min-sig setting.
#[derive(Clone, Copy, Debug, PartialEq, Eq, Hash)]
pub struct Bls12381PublicKey {
    pub bytes: [u8; 96],
}

impl View for Bls12381PublicKey {
    type V = Seq<u8>;

    open spec fn view(&self) -> Seq<u8> {
        self.bytes@
    }
}

impl Bls12381PublicKey {
    /// The length in bytes.
    pub const LENGTH: usize = 96;

    /// Wraps the bytes.
    pub fn new(bytes: [u8; 96]) -> (value: Bls12381PublicKey)
        ensures
            value.bytes == bytes,
    {
        Bls12381PublicKey { bytes }
    }

    /// Reads the bytes, which must be exactly 96.
    pub fn from_bytes(bytes: &[u8]) -> (value: Option<Bls12381PublicKey>)
        ensures
            value is Some <==> bytes@.len() == 96,
            value matches Some(v) ==> v@ == bytes@,
    {
        match array_from_slice::<96>(bytes) {
            Some(bytes) => Some(Bls12381PublicKey { bytes }),
            None => None,
        }
    }

    /// The bytes.
    pub fn as_bytes(&self) -> (bytes: &[u8])
        ensures
            bytes@ == self@,
            bytes@.len() == 96,
    {
        self.bytes.as_slice()
    }
}

/// A BLS12-381 signature in the min-sig setting.
#[derive(Clone, Copy, Debug, PartialEq, Eq, Hash)]
pub struct Bls12381Signature {
    pub bytes: [u8; 48],
}

impl View for Bls12381Signature {
    type V = Seq<u8>;

    open spec fn view(&self) -> Seq<u8> {
        self.bytes@
    }
}

impl Bls12381Signature {
    /// The length in bytes.
    pub const LENGTH: usize = 48;

    /// Wraps the bytes.
    pub fn new(bytes: [u8; 48]) -> (value: Bls12381Signature)
        ensures
            value.bytes == bytes,
    {
        Bls12381Signature { bytes }
    }

    /// Reads the bytes, which must be exactly 48.
    pub fn from_bytes(bytes: &[u8]) -> (value: Option<Bls12381Signature>)
        ensures
            value is Some <==> bytes@.len() == 48,
            value matches Some(v) ==> v@ == bytes@,
    {
        match array_from_slice::<48>(bytes) {
            Some(bytes) => Some(Bls12381Signature { bytes }),
            None => None,
        }
    }

    /// The bytes.
    pub fn as_bytes(&self) -> (bytes: &[u8])
        ensures
            bytes@ == self@,
            bytes@.len() == 48,
    {
        self.bytes.as_slice()
    }
}

} // verus!
