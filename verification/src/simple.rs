//! The signature of a single key.

use vstd::prelude::*;
use vstd::slice::slice_subrange;
use crate::error::CodecError;
use crate::keys::{
    Ed25519PublicKey, Ed25519Signature, Secp256k1PublicKey, Secp256k1Signature,
    Secp256r1PublicKey, Secp256r1Signature,
};
use crate::scheme::SchemeTag;
use crate::text::push_bytes;

verus! {

/// A signature together with the public key that it verifies under. Both
/// belong to one scheme.
#[derive(Clone, Copy, Debug, PartialEq, Eq, Hash)]
pub enum SimpleSignature {
    Ed25519 { signature: Ed25519Signature, public_key: Ed25519PublicKey },
    Secp256k1 { signature: Secp256k1Signature, public_key: Secp256k1PublicKey },
    Secp256r1 { signature: Secp256r1Signature, public_key: Secp256r1PublicKey },
}

/// What a simple signature holds, as mathematics.
pub struct SimpleSignatureView {
    pub scheme: SchemeTag,
    pub signature: Seq<u8>,
    pub public_key: Seq<u8>,
}

/// Whether a scheme signs with a single key.
pub open spec fn is_simple_scheme(scheme: SchemeTag) -> bool {
    scheme == SchemeTag::Ed25519 || scheme == SchemeTag::Secp256k1 || scheme
        == SchemeTag::Secp256r1
}

/// The length of a signature of a single-key scheme: 64 bytes in each.
pub open spec fn signature_length(scheme: SchemeTag) -> int {
    64
}

/// The length of a public key of a single-key scheme.
pub open spec fn public_key_length(scheme: SchemeTag) -> int {
    if scheme == SchemeTag::Ed25519 {
        32
    } else {
        33
    }
}

/// The values that a simple signature can hold.
pub open spec fn simple_wf(v: SimpleSignatureView) -> bool {
    &&& is_simple_scheme(v.scheme)
    &&& v.signature.len() == signature_length(v.scheme)
    &&& v.public_key.len() == public_key_length(v.scheme)
}

/// The compact form: the scheme's tag, the signature, the public key.
pub open spec fn simple_bytes(v: SimpleSignatureView) -> Seq<u8> {
    seq![SchemeTag::byte_of(v.scheme)] + v.signature + v.public_key
}

/// What a byte string stands for as a simple signature, or why it stands for
/// none.
pub open spec fn parse_simple(bytes: Seq<u8>) -> Result<SimpleSignatureView, CodecError> {
    if bytes.len() == 0 {
        Err(CodecError::TruncatedInput)
    } else {
        match SchemeTag::of_byte(bytes[0]) {
            None => Err(CodecError::UnknownScheme),
            Some(scheme) => {
                let end = 1 + signature_length(scheme) + public_key_length(scheme);
                if !is_simple_scheme(scheme) {
                    Err(CodecError::SchemeMismatch)
                } else if bytes.len() < end {
                    Err(CodecError::TruncatedInput)
                } else if bytes.len() > end {
                    Err(CodecError::TrailingData)
                } else {
                    Ok(
                        SimpleSignatureView {
                            scheme,
                            signature: bytes.subrange(1, 65),
                            public_key: bytes.subrange(65, end),
                        },
                    )
                }
            },
        }
    }
}

impl View for SimpleSignature {
    type V = SimpleSignatureView;

    open spec fn view(&self) -> SimpleSignatureView {
        match *self {
            SimpleSignature::Ed25519 { signature, public_key } => SimpleSignatureView {
                scheme: SchemeTag::Ed25519,
                signature: signature@,
                public_key: public_key@,
            },
            SimpleSignature::Secp256k1 { signature, public_key } => SimpleSignatureView {
                scheme: SchemeTag::Secp256k1,
                signature: signature@,
                public_key: public_key@,
            },
            SimpleSignature::Secp256r1 { signature, public_key } => SimpleSignatureView {
                scheme: SchemeTag::Secp256r1,
                signature: signature@,
                public_key: public_key@,
            },
        }
    }
}

impl SimpleSignature {
    /// The scheme of the key and the signature.
    pub fn scheme(&self) -> (scheme: SchemeTag)
        ensures
            scheme == self@.scheme,
            simple_wf(self@),
    {
        match self {
            SimpleSignature::Ed25519 { .. } => SchemeTag::Ed25519,
            SimpleSignature::Secp256k1 { .. } => SchemeTag::Secp256k1,
            SimpleSignature::Secp256r1 { .. } => SchemeTag::Secp256r1,
        }
    }

    /// The signature's bytes.
    pub fn signature_bytes(&self) -> (bytes: &[u8])
        ensures
            bytes@ == self@.signature,
            bytes@.len() == 64,
    {
        match self {
            SimpleSignature::Ed25519 { signature, .. } => signature.as_bytes(),
            SimpleSignature::Secp256k1 { signature, .. } => signature.as_bytes(),
            SimpleSignature::Secp256r1 { signature, .. } => signature.as_bytes(),
        }
    }

    /// The public key's bytes.
    pub fn public_key_bytes(&self) -> (bytes: &[u8])
        ensures
            bytes@ == self@.public_key,
            bytes@.len() == public_key_length(self@.scheme),
    {
        match self {
            SimpleSignature::Ed25519 { public_key, .. } => public_key.as_bytes(),
            SimpleSignature::Secp256k1 { public_key, .. } => public_key.as_bytes(),
            SimpleSignature::Secp256r1 { public_key, .. } => public_key.as_bytes(),
        }
    }

    /// The signature of `scheme` with these bytes, where `scheme` signs with a
    /// single key and the lengths are those of the scheme.
    pub fn from_parts(scheme: SchemeTag, signature: &[u8], public_key: &[u8]) -> (r: Option<
        SimpleSignature,
    >)
        ensures
            r is Some <==> simple_wf(
                SimpleSignatureView { scheme, signature: signature@, public_key: public_key@ },
            ),
            r matches Some(s) ==> s@ == (SimpleSignatureView {
                scheme,
                signature: signature@,
                public_key: public_key@,
            }),
    {
        match scheme {
            SchemeTag::Ed25519 => {
                match (Ed25519Signature::from_bytes(signature), Ed25519PublicKey::from_bytes(
                    public_key,
                )) {
                    (Some(signature), Some(public_key)) => Some(
                        SimpleSignature::Ed25519 { signature, public_key },
                    ),
                    _ => None,
                }
            },
            SchemeTag::Secp256k1 => {
                match (Secp256k1Signature::from_bytes(signature), Secp256k1PublicKey::from_bytes(
                    public_key,
                )) {
                    (Some(signature), Some(public_key)) => Some(
                        SimpleSignature::Secp256k1 { signature, public_key },
                    ),
                    _ => None,
                }
            },
            SchemeTag::Secp256r1 => {
                match (Secp256r1Signature::from_bytes(signature), Secp256r1PublicKey::from_bytes(
                    public_key,
                )) {
                    (Some(signature), Some(public_key)) => Some(
                        SimpleSignature::Secp256r1 { signature, public_key },
                    ),
                    _ => None,
                }
            },
            _ => None,
        }
    }

    /// The compact form.
    pub fn encode_compact(&self) -> (bytes: Vec<u8>)
        ensures
            simple_wf(self@),
            bytes@ == simple_bytes(self@),
            bytes@.len() == 65 + public_key_length(self@.scheme),
            parse_simple(bytes@) == Ok::<SimpleSignatureView, CodecError>(self@),
    {
        proof {
            lemma_simple_round_trip(self@);
        }
        let mut out: Vec<u8> = Vec::new();
        out.push(self.scheme().as_byte());
        push_bytes(&mut out, self.signature_bytes());
        push_bytes(&mut out, self.public_key_bytes());
        assert(out@ =~= simple_bytes(self@));
        out
    }

    /// Reads the compact form. Nothing may follow the public key.
    pub fn decode_compact(bytes: &[u8]) -> (r: Result<SimpleSignature, CodecError>)
        ensures
            match parse_simple(bytes@) {
                Ok(v) => r is Ok && r.unwrap()@ == v && simple_bytes(v) == bytes@,
                Err(e) => r == Err::<SimpleSignature, CodecError>(e),
            },
    {
        proof {
            if parse_simple(bytes@) is Ok {
                lemma_simple_canonical(bytes@);
            }
        }
        let len = bytes.len();
        if len == 0 {
            return Err(CodecError::TruncatedInput);
        }
        let scheme = match SchemeTag::from_byte(bytes[0]) {
            Ok(scheme) => scheme,
            Err(e) => {
                return Err(e);
            },
        };
        let key_len: usize = match scheme {
            SchemeTag::Ed25519 => 32,
            SchemeTag::Secp256k1 => 33,
            SchemeTag::Secp256r1 => 33,
            _ => {
                return Err(CodecError::SchemeMismatch);
            },
        };
        let end: usize = 65 + key_len;
        if len < end {
            return Err(CodecError::TruncatedInput);
        }
        if len > end {
            return Err(CodecError::TrailingData);
        }
        let signature = slice_subrange(bytes, 1, 65);
        let public_key = slice_subrange(bytes, 65, end);
        match SimpleSignature::from_parts(scheme, signature, public_key) {
            Some(s) => Ok(s),
            None => Err(CodecError::TruncatedInput),
        }
    }
}

/// Reading the compact form of a simple signature gives the signature back,
/// under the tag of its scheme.
pub proof fn lemma_simple_round_trip(v: SimpleSignatureView)
    requires
        simple_wf(v),
    ensures
        parse_simple(simple_bytes(v)) == Ok::<SimpleSignatureView, CodecError>(v),
        simple_bytes(v)[0] == SchemeTag::byte_of(v.scheme),
{
    let bytes = simple_bytes(v);
    let end = 65 + public_key_length(v.scheme);
    assert(bytes.len() == end);
    assert(bytes.subrange(1, 65) =~= v.signature);
    assert(bytes.subrange(65, end) =~= v.public_key);
}

/// A byte string that reads as a simple signature is the compact form of
/// that signature.
pub proof fn lemma_simple_canonical(bytes: Seq<u8>)
    requires
        parse_simple(bytes) is Ok,
    ensures
        simple_wf(parse_simple(bytes).unwrap()),
        simple_bytes(parse_simple(bytes).unwrap()) == bytes,
{
    let v = parse_simple(bytes).unwrap();
    assert(simple_bytes(v) =~= bytes);
}

} // verus!
