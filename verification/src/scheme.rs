//! The registry of scheme tags: one byte for each way of authenticating.

use vstd::prelude::*;
use crate::error::CodecError;
use crate::text::same_text;

verus! {

/// The scheme that a key, a signature or an authenticator belongs to.
///
/// The tag is the first byte of every compact signature envelope.
#[derive(Clone, Copy, Debug, PartialEq, Eq, Structural, Hash)]
pub enum SchemeTag {
    Ed25519,
    Secp256k1,
    Secp256r1,
    Multisig,
    Bls12381,
    ZkLogin,
}

impl SchemeTag {
    /// The byte that stands for a scheme on the wire.
    pub open spec fn byte_of(tag: SchemeTag) -> u8 {
        match tag {
            SchemeTag::Ed25519 => 0u8,
            SchemeTag::Secp256k1 => 1u8,
            SchemeTag::Secp256r1 => 2u8,
            SchemeTag::Multisig => 3u8,
            SchemeTag::Bls12381 => 4u8,
            SchemeTag::ZkLogin => 5u8,
        }
    }

    /// The scheme that a byte stands for, if any.
    pub open spec fn of_byte(byte: u8) -> Option<SchemeTag> {
        if byte == 0 {
            Some(SchemeTag::Ed25519)
        } else if byte == 1 {
            Some(SchemeTag::Secp256k1)
        } else if byte == 2 {
            Some(SchemeTag::Secp256r1)
        } else if byte == 3 {
            Some(SchemeTag::Multisig)
        } else if byte == 4 {
            Some(SchemeTag::Bls12381)
        } else if byte == 5 {
            Some(SchemeTag::ZkLogin)
        } else {
            None
        }
    }

    /// The name that stands for a scheme in the readable form.
    pub open spec fn name_of(tag: SchemeTag) -> Seq<char> {
        match tag {
            SchemeTag::Ed25519 => "ed25519"@,
            SchemeTag::Secp256k1 => "secp256k1"@,
            SchemeTag::Secp256r1 => "secp256r1"@,
            SchemeTag::Multisig => "multisig"@,
            SchemeTag::Bls12381 => "bls12381"@,
            SchemeTag::ZkLogin => "zklogin"@,
        }
    }

    /// The scheme that a name stands for, if any.
    pub open spec fn of_name(name: Seq<char>) -> Option<SchemeTag> {
        if name == "ed25519"@ {
            Some(SchemeTag::Ed25519)
        } else if name == "secp256k1"@ {
            Some(SchemeTag::Secp256k1)
        } else if name == "secp256r1"@ {
            Some(SchemeTag::Secp256r1)
        } else if name == "multisig"@ {
            Some(SchemeTag::Multisig)
        } else if name == "bls12381"@ {
            Some(SchemeTag::Bls12381)
        } else if name == "zklogin"@ {
            Some(SchemeTag::ZkLogin)
        } else {
            None
        }
    }

    /// The tag's name in the readable form.
    pub fn name(&self) -> (name: &'static str)
        ensures
            name@ == Self::name_of(*self),
            Self::of_name(name@) == Some(*self),
    {
        proof {
            lemma_scheme_names(*self);
        }
        match self {
            SchemeTag::Ed25519 => "ed25519",
            SchemeTag::Secp256k1 => "secp256k1",
            SchemeTag::Secp256r1 => "secp256r1",
            SchemeTag::Multisig => "multisig",
            SchemeTag::Bls12381 => "bls12381",
            SchemeTag::ZkLogin => "zklogin",
        }
    }

    /// Reads a tag's name. A name outside the closed set is
    /// [`CodecError::UnknownScheme`].
    pub fn from_name(name: &str) -> (tag: Result<SchemeTag, CodecError>)
        ensures
            match Self::of_name(name@) {
                Some(t) => tag == Ok::<SchemeTag, CodecError>(t),
                None => tag == Err::<SchemeTag, CodecError>(CodecError::UnknownScheme),
            },
    {
        if same_text(name, "ed25519") {
            Ok(SchemeTag::Ed25519)
        } else if same_text(name, "secp256k1") {
            Ok(SchemeTag::Secp256k1)
        } else if same_text(name, "secp256r1") {
            Ok(SchemeTag::Secp256r1)
        } else if same_text(name, "multisig") {
            Ok(SchemeTag::Multisig)
        } else if same_text(name, "bls12381") {
            Ok(SchemeTag::Bls12381)
        } else if same_text(name, "zklogin") {
            Ok(SchemeTag::ZkLogin)
        } else {
            Err(CodecError::UnknownScheme)
        }
    }

    /// The tag's byte.
    pub fn as_byte(&self) -> (byte: u8)
        ensures
            byte == Self::byte_of(*self),
            Self::of_byte(byte) == Some(*self),
    {
        match self {
            SchemeTag::Ed25519 => 0,
            SchemeTag::Secp256k1 => 1,
            SchemeTag::Secp256r1 => 2,
            SchemeTag::Multisig => 3,
            SchemeTag::Bls12381 => 4,
            SchemeTag::ZkLogin => 5,
        }
    }

    /// Reads a tag byte. A byte outside the closed set is
    /// [`CodecError::UnknownScheme`].
    pub fn from_byte(byte: u8) -> (tag: Result<SchemeTag, CodecError>)
        ensures
            match Self::of_byte(byte) {
                Some(t) => tag == Ok::<SchemeTag, CodecError>(t),
                None => tag == Err::<SchemeTag, CodecError>(CodecError::UnknownScheme),
            },
    {
        match byte {
            0 => Ok(SchemeTag::Ed25519),
            1 => Ok(SchemeTag::Secp256k1),
            2 => Ok(SchemeTag::Secp256r1),
            3 => Ok(SchemeTag::Multisig),
            4 => Ok(SchemeTag::Bls12381),
            5 => Ok(SchemeTag::ZkLogin),
            _ => Err(CodecError::UnknownScheme),
        }
    }
}

/// The tag bytes and the tags are in one-to-one correspondence: a tag's byte
/// reads back as that tag, and a byte that reads as a tag is that tag's byte.
pub proof fn lemma_scheme_tag_bijective(tag: SchemeTag, byte: u8)
    ensures
        SchemeTag::of_byte(SchemeTag::byte_of(tag)) == Some(tag),
        SchemeTag::of_byte(byte) == Some(tag) ==> SchemeTag::byte_of(tag) == byte,
        SchemeTag::of_byte(byte) is Some <==> byte <= 5,
{
}

/// The names and the tags are in one-to-one correspondence: a tag's name
/// reads back as that tag.
pub proof fn lemma_scheme_names(tag: SchemeTag)
    ensures
        SchemeTag::of_name(SchemeTag::name_of(tag)) == Some(tag),
{
    reveal_strlit("ed25519");
    reveal_strlit("secp256k1");
    reveal_strlit("secp256r1");
    reveal_strlit("multisig");
    reveal_strlit("bls12381");
    reveal_strlit("zklogin");
    assert("ed25519"@.len() == 7 && "zklogin"@.len() == 7);
    assert("secp256k1"@.len() == 9 && "secp256r1"@.len() == 9);
    assert("multisig"@.len() == 8 && "bls12381"@.len() == 8);
    assert("ed25519"@[0] != "zklogin"@[0]);
    assert("secp256k1"@[7] != "secp256r1"@[7]);
    assert("multisig"@[0] != "bls12381"@[0]);
}

} // verus!
