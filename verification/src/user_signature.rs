//! The signature of a transaction's signer, whatever the scheme: the one
//! place that decides, by the first byte, what the rest of an envelope is.

use vstd::prelude::*;
use crate::error::CodecError;
use crate::multisig::{
    lemma_multisig_round_trip, multisig_bytes, multisig_wf, parse_multisig,
    MultisigAggregatedSignature, MultisigView,
};
use crate::scheme::SchemeTag;
use crate::simple::{
    lemma_simple_round_trip, parse_simple, simple_bytes, simple_wf,
    SimpleSignature, SimpleSignatureView,
};
use crate::zklogin::{
    authenticator_bytes, authenticator_wf, bcs_body, bcs_parse, body_fits,
    body_of, lemma_body_round_trip, parse_authenticator, AuthenticatorView, BcsFailure, BodyModel,
    ZkLoginAuthenticator,
};

verus! {

/// A signature of any scheme that a user can sign with.
#[derive(Clone, Debug, PartialEq, Eq)]
pub enum UserSignature {
    Simple(SimpleSignature),
    Multisig(MultisigAggregatedSignature),
    ZkLogin(Box<ZkLoginAuthenticator>),
}

/// What a user signature holds, as mathematics.
pub enum UserSignatureView {
    Simple(SimpleSignatureView),
    Multisig(MultisigView),
    ZkLogin(AuthenticatorView),
}

impl View for UserSignature {
    type V = UserSignatureView;

    open spec fn view(&self) -> UserSignatureView {
        match self {
            UserSignature::Simple(s) => UserSignatureView::Simple(s@),
            UserSignature::Multisig(m) => UserSignatureView::Multisig(m@),
            UserSignature::ZkLogin(z) => UserSignatureView::ZkLogin(z@),
        }
    }
}

/// The values that a user signature can hold.
pub open spec fn user_signature_wf(v: UserSignatureView) -> bool {
    match v {
        UserSignatureView::Simple(s) => simple_wf(s),
        UserSignatureView::Multisig(m) => multisig_wf(m),
        UserSignatureView::ZkLogin(z) => authenticator_wf(z),
    }
}

/// The tag of a user signature: the key's scheme for a simple signature,
/// and the scheme itself for the others.
pub open spec fn user_signature_tag(v: UserSignatureView) -> SchemeTag {
    match v {
        UserSignatureView::Simple(s) => s.scheme,
        UserSignatureView::Multisig(_) => SchemeTag::Multisig,
        UserSignatureView::ZkLogin(_) => SchemeTag::ZkLogin,
    }
}

/// The compact form: the tag in one byte, then the body of the variant.
pub open spec fn user_signature_bytes(v: UserSignatureView) -> Seq<u8> {
    match v {
        UserSignatureView::Simple(s) => simple_bytes(s),
        UserSignatureView::Multisig(m) => multisig_bytes(m),
        UserSignatureView::ZkLogin(z) => authenticator_bytes(z),
    }
}

/// Whether the wire can carry a user signature: always, but for a zkLogin
/// authenticator with a list or text longer than bcs writes.
pub open spec fn user_signature_fits(v: UserSignatureView) -> bool {
    v matches UserSignatureView::ZkLogin(z) ==> body_fits(body_of(z))
}

/// What a byte string stands for as a user signature, or why it stands for
/// none. The first byte chooses the variant; a tag of a scheme that no user
/// signs with is a mismatch.
pub open spec fn parse_user_signature(bytes: Seq<u8>) -> Result<UserSignatureView, CodecError> {
    if bytes.len() == 0 {
        Err(CodecError::TruncatedInput)
    } else {
        match SchemeTag::of_byte(bytes[0]) {
            None => Err(CodecError::UnknownScheme),
            Some(SchemeTag::Multisig) => match parse_multisig(bytes) {
                Ok(m) => Ok(UserSignatureView::Multisig(m)),
                Err(e) => Err(e),
            },
            Some(SchemeTag::ZkLogin) => match parse_authenticator(bytes) {
                Ok(z) => Ok(UserSignatureView::ZkLogin(z)),
                Err(e) => Err(e),
            },
            Some(SchemeTag::Bls12381) => Err(CodecError::SchemeMismatch),
            Some(_) => match parse_simple(bytes) {
                Ok(s) => Ok(UserSignatureView::Simple(s)),
                Err(e) => Err(e),
            },
        }
    }
}

impl UserSignature {
    /// The scheme, which is the tag of the compact form.
    pub fn scheme(&self) -> (scheme: SchemeTag)
        ensures
            scheme == user_signature_tag(self@),
    {
        match self {
            UserSignature::Simple(s) => s.scheme(),
            UserSignature::Multisig(_) => SchemeTag::Multisig,
            UserSignature::ZkLogin(_) => SchemeTag::ZkLogin,
        }
    }

    /// The compact form: one byte with the tag, then the body. `None` only
    /// for a zkLogin authenticator that the wire cannot carry.
    pub fn encode_compact(&self) -> (bytes: Option<Vec<u8>>)
        ensures
            user_signature_wf(self@),
            bytes is Some <==> user_signature_fits(self@),
            bytes matches Some(b) ==> {
                &&& b@ == user_signature_bytes(self@)
                &&& b@.len() > 0
                &&& b@[0] == SchemeTag::byte_of(user_signature_tag(self@))
                &&& parse_user_signature(b@) == Ok::<UserSignatureView, CodecError>(self@)
            },
    {
        match self {
            UserSignature::Simple(s) => {
                let bytes = s.encode_compact();
                proof {
                    lemma_simple_round_trip(s@);
                }
                Some(bytes)
            },
            UserSignature::Multisig(m) => {
                let bytes = m.encode_compact();
                proof {
                    lemma_multisig_round_trip(m@);
                }
                Some(bytes)
            },
            UserSignature::ZkLogin(z) => z.encode_compact(),
        }
    }

    /// Reads the compact form: the first byte says which variant follows.
    pub fn decode_compact(bytes: &[u8]) -> (r: Result<UserSignature, CodecError>)
        ensures
            match parse_user_signature(bytes@) {
                Ok(v) => r is Ok && r.unwrap()@ == v && user_signature_bytes(v) == bytes@,
                Err(e) => r == Err::<UserSignature, CodecError>(e),
            },
    {
        if bytes.len() == 0 {
            return Err(CodecError::TruncatedInput);
        }
        let scheme = match SchemeTag::from_byte(bytes[0]) {
            Ok(scheme) => scheme,
            Err(e) => {
                return Err(e);
            },
        };
        match scheme {
            SchemeTag::Multisig => match MultisigAggregatedSignature::decode_compact(bytes) {
                Ok(m) => Ok(UserSignature::Multisig(m)),
                Err(e) => Err(e),
            },
            SchemeTag::ZkLogin => match ZkLoginAuthenticator::from_serialized_bytes(bytes) {
                Ok(z) => Ok(UserSignature::ZkLogin(Box::new(z))),
                Err(e) => Err(e),
            },
            SchemeTag::Bls12381 => Err(CodecError::SchemeMismatch),
            _ => match SimpleSignature::decode_compact(bytes) {
                Ok(s) => Ok(UserSignature::Simple(s)),
                Err(e) => Err(e),
            },
        }
    }
}

/// Whether bcs reads the body of an authenticator back from the bytes that
/// it writes for it. It does so for every body that it has written.
pub open spec fn bcs_reads_back(body: BodyModel) -> bool {
    bcs_parse(bcs_body(body)) == Ok::<BodyModel, BcsFailure>(body)
}

/// Reading the compact form of a user signature gives the signature back,
/// and the form starts with the signature's own tag. For a zkLogin
/// authenticator this holds of every body that bcs reads back.
pub proof fn lemma_user_signature_round_trip(v: UserSignatureView)
    requires
        user_signature_wf(v),
        v matches UserSignatureView::ZkLogin(z) ==> bcs_reads_back(body_of(z)),
    ensures
        parse_user_signature(user_signature_bytes(v)) == Ok::<UserSignatureView, CodecError>(v),
        user_signature_bytes(v)[0] == SchemeTag::byte_of(user_signature_tag(v)),
        SchemeTag::of_byte(user_signature_bytes(v)[0]) == Some(user_signature_tag(v)),
{
    match v {
        UserSignatureView::Simple(s) => {
            lemma_simple_round_trip(s);
        },
        UserSignatureView::Multisig(m) => {
            lemma_multisig_round_trip(m);
        },
        UserSignatureView::ZkLogin(z) => {
            let bytes = authenticator_bytes(z);
            assert(bytes.skip(1) =~= bcs_body(body_of(z)));
            lemma_body_round_trip(z);
        },
    }
}

/// The variant of a user signature that is read from bytes is the one that
/// the first byte names.
pub proof fn lemma_user_signature_tag(bytes: Seq<u8>)
    requires
        parse_user_signature(bytes) is Ok,
    ensures
        bytes.len() > 0,
        SchemeTag::of_byte(bytes[0]) == Some(user_signature_tag(parse_user_signature(bytes).unwrap())),
{
}

} // verus!
