//! The public identifier of a zkLogin signer: who issued the token, and the
//! address seed that was derived for the holder.

use vstd::prelude::*;
use vstd::slice::slice_subrange;
use vstd::utf8::{
    decode_utf8, decode_utf8_encode_utf8, encode_utf8, encode_utf8_decode_utf8,
    encode_utf8_valid_utf8, valid_utf8,
};
use crate::address_seed::AddressSeed;
use crate::error::CodecError;
use crate::text::{push_bytes, push_utf8, string_from_utf8, utf8_len};

verus! {

/// What an identifier holds, as mathematics: the issuer's text and the 32
/// bytes of the address seed.
pub struct IdentifierView {
    pub iss: Seq<char>,
    pub address_seed: Seq<u8>,
}

/// The values that an identifier can hold: an issuer of at most 255 bytes in
/// UTF-8, so that one byte can give its length, and a seed of 32 bytes.
pub open spec fn identifier_wf(v: IdentifierView) -> bool {
    utf8_len(v.iss) <= 255 && v.address_seed.len() == 32
}

/// The compact form: one byte with the issuer's length in bytes, the issuer
/// in UTF-8, the 32 bytes of the seed.
pub open spec fn identifier_bytes(v: IdentifierView) -> Seq<u8> {
    seq![utf8_len(v.iss) as u8] + encode_utf8(v.iss) + v.address_seed
}

/// What a byte string stands for as an identifier, or why it stands for
/// none.
pub open spec fn parse_identifier(bytes: Seq<u8>) -> Result<IdentifierView, CodecError> {
    if bytes.len() == 0 {
        Err(CodecError::TruncatedInput)
    } else {
        let n = bytes[0] as int;
        if bytes.len() < 1 + n {
            Err(CodecError::TruncatedInput)
        } else if !valid_utf8(bytes.subrange(1, 1 + n)) {
            Err(CodecError::InvalidUtf8)
        } else if bytes.len() < 1 + n + 32 {
            Err(CodecError::TruncatedInput)
        } else if bytes.len() > 1 + n + 32 {
            Err(CodecError::TrailingData)
        } else {
            Ok(
                IdentifierView {
                    iss: decode_utf8(bytes.subrange(1, 1 + n)),
                    address_seed: bytes.subrange(1 + n, 1 + n + 32),
                },
            )
        }
    }
}

/// The identity of a zkLogin signer, as it stands among the public keys of
/// a multisig committee.
#[derive(Debug, PartialEq, Eq)]
pub struct ZkLoginPublicIdentifier {
    iss: String,
    address_seed: AddressSeed,
}

impl View for ZkLoginPublicIdentifier {
    type V = IdentifierView;

    closed spec fn view(&self) -> IdentifierView {
        IdentifierView { iss: self.iss@, address_seed: self.address_seed@ }
    }
}

impl Clone for ZkLoginPublicIdentifier {
    fn clone(&self) -> (copy: ZkLoginPublicIdentifier)
        ensures
            copy@ == self@,
    {
        proof {
            use_type_invariant(self);
        }
        ZkLoginPublicIdentifier { iss: self.iss.clone(), address_seed: self.address_seed }
    }
}

impl ZkLoginPublicIdentifier {
    #[verifier::type_invariant]
    spec fn issuer_fits_one_length_byte(&self) -> bool {
        utf8_len(self.iss@) <= 255
    }

    /// An identifier, if the issuer takes at most 255 bytes in UTF-8.
    pub fn new(iss: String, address_seed: AddressSeed) -> (id: Option<ZkLoginPublicIdentifier>)
        ensures
            id is Some <==> utf8_len(iss@) <= 255,
            id matches Some(i) ==> i@ == (IdentifierView {
                iss: iss@,
                address_seed: address_seed@,
            }),
    {
        if iss.as_str().as_bytes().len() > 255 {
            None
        } else {
            Some(ZkLoginPublicIdentifier { iss, address_seed })
        }
    }

    /// The issuer.
    pub fn iss(&self) -> (iss: &str)
        ensures
            iss@ == self@.iss,
            identifier_wf(self@),
    {
        proof {
            use_type_invariant(self);
        }
        self.iss.as_str()
    }

    /// The address seed.
    pub fn address_seed(&self) -> (seed: &AddressSeed)
        ensures
            seed@ == self@.address_seed,
    {
        &self.address_seed
    }

    /// The compact form.
    pub fn encode_compact(&self) -> (bytes: Vec<u8>)
        ensures
            identifier_wf(self@),
            bytes@ == identifier_bytes(self@),
            parse_identifier(bytes@) == Ok::<IdentifierView, CodecError>(self@),
    {
        proof {
            use_type_invariant(self);
            lemma_identifier_round_trip(self@);
        }
        let iss = self.iss.as_str();
        let n = iss.as_bytes().len();
        let mut out: Vec<u8> = Vec::new();
        out.push(n as u8);
        push_utf8(&mut out, iss);
        push_bytes(&mut out, self.address_seed.padded());
        assert(out@ =~= identifier_bytes(self@));
        out
    }

    /// Reads the compact form. Nothing may follow the seed.
    pub fn decode_compact(bytes: &[u8]) -> (r: Result<ZkLoginPublicIdentifier, CodecError>)
        ensures
            match parse_identifier(bytes@) {
                Ok(v) => r is Ok && r.unwrap()@ == v && identifier_bytes(v) == bytes@,
                Err(e) => r == Err::<ZkLoginPublicIdentifier, CodecError>(e),
            },
    {
        proof {
            if parse_identifier(bytes@) is Ok {
                lemma_identifier_canonical(bytes@);
            }
        }
        let len = bytes.len();
        if len == 0 {
            return Err(CodecError::TruncatedInput);
        }
        let n = bytes[0] as usize;
        if len < 1 + n {
            return Err(CodecError::TruncatedInput);
        }
        let iss_bytes = slice_subrange(bytes, 1, 1 + n);
        let iss = match string_from_utf8(iss_bytes) {
            Some(s) => s,
            None => {
                return Err(CodecError::InvalidUtf8);
            },
        };
        if len < 1 + n + 32 {
            return Err(CodecError::TruncatedInput);
        }
        if len > 1 + n + 32 {
            return Err(CodecError::TrailingData);
        }
        let seed_bytes = slice_subrange(bytes, 1 + n, 1 + n + 32);
        let address_seed = match AddressSeed::from_bytes(seed_bytes) {
            Some(s) => s,
            None => {
                return Err(CodecError::TruncatedInput);
            },
        };
        proof {
            decode_utf8_encode_utf8(iss_bytes@);
            assert(address_seed@ =~= seed_bytes@);
        }
        Ok(ZkLoginPublicIdentifier { iss, address_seed })
    }
}

/// Reading the compact form of an identifier gives the identifier back.
pub proof fn lemma_identifier_round_trip(v: IdentifierView)
    requires
        identifier_wf(v),
    ensures
        parse_identifier(identifier_bytes(v)) == Ok::<IdentifierView, CodecError>(v),
{
    let text = encode_utf8(v.iss);
    let bytes = identifier_bytes(v);
    let n = text.len() as int;
    assert(bytes[0] as int == n);
    assert(bytes.subrange(1, 1 + n) =~= text);
    assert(bytes.subrange(1 + n, 1 + n + 32) =~= v.address_seed);
    encode_utf8_valid_utf8(v.iss);
    encode_utf8_decode_utf8(v.iss);
}

/// A byte string that reads as an identifier is the compact form of that
/// identifier, and of no other: the compact form is canonical.
pub proof fn lemma_identifier_canonical(bytes: Seq<u8>)
    requires
        parse_identifier(bytes) is Ok,
    ensures
        identifier_wf(parse_identifier(bytes).unwrap()),
        identifier_bytes(parse_identifier(bytes).unwrap()) == bytes,
{
    let v = parse_identifier(bytes).unwrap();
    let n = bytes[0] as int;
    let region = bytes.subrange(1, 1 + n);
    decode_utf8_encode_utf8(region);
    assert(encode_utf8(v.iss) == region);
    assert(identifier_bytes(v) =~= bytes);
}

/// A compact form cut short by one byte is refused as truncated.
pub proof fn lemma_identifier_truncated(v: IdentifierView)
    requires
        identifier_wf(v),
    ensures
        parse_identifier(identifier_bytes(v).drop_last()) == Err::<IdentifierView, CodecError>(
            CodecError::TruncatedInput,
        ),
{
    let text = encode_utf8(v.iss);
    let bytes = identifier_bytes(v);
    let cut = bytes.drop_last();
    let n = text.len() as int;
    assert(cut.len() == n + 32);
    assert(cut[0] == bytes[0]);
    assert(cut.subrange(1, 1 + n) =~= text);
    encode_utf8_valid_utf8(v.iss);
}

} // verus!
