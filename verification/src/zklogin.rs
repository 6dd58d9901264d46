//! The zkLogin authenticator: a zero-knowledge proof over the claims of a
//! token, the inputs that lead to the signer's address, and the signature
//! of an ephemeral key.
//!
//! Nothing here checks the proof. The types carry the verifier's inputs, and
//! the codec lays them out on the wire.

use vstd::prelude::*;
use vstd::slice::slice_subrange;
use crate::address_seed::AddressSeed;
use crate::error::CodecError;
use crate::primitives::EpochId;
use crate::scheme::SchemeTag;
use crate::simple::{
    lemma_simple_canonical, lemma_simple_round_trip, parse_simple, simple_bytes, simple_wf, SimpleSignature,
    SimpleSignatureView,
};
use crate::text::{push_bytes, utf8_len};

verus! {

/// A G1 point of BN254: the decimal strings of its projective coordinates.
pub type CircomG1 = Vec<String>;

/// A G2 point of BN254: for each projective coordinate, the decimal strings
/// of its two coefficients.
pub type CircomG2 = Vec<Vec<String>>;

/// The proof points of a zkLogin proof.
#[derive(Clone, Debug, PartialEq, Eq)]
pub struct ZkLoginProof {
    a: CircomG1,
    b: CircomG2,
    c: CircomG1,
}

/// What a proof holds, as mathematics.
pub struct ProofView {
    pub a: Seq<Seq<char>>,
    pub b: Seq<Seq<Seq<char>>>,
    pub c: Seq<Seq<char>>,
}

/// A claim of the token: a fragment of its base64 text, and where the
/// fragment starts within a group of four base64 characters.
#[derive(Debug, PartialEq, Eq)]
pub struct Claim {
    value: String,
    index_mod_4: u8,
}

/// What a claim holds, as mathematics.
pub struct ClaimView {
    pub value: Seq<char>,
    pub index_mod_4: u8,
}

/// The parts of a token that were parsed out of it. They are derived from
/// the inputs and belong to neither wire form.
#[derive(Clone, Debug, Default, PartialEq, Eq)]
pub struct JwtDetails {
    pub kid: String,
    pub header: String,
    pub iss: String,
}

/// Everything that the verifier of a zkLogin proof takes as input.
#[derive(Clone, Debug, PartialEq, Eq)]
pub struct ZkLoginInputs {
    proof_points: ZkLoginProof,
    iss_base64_details: Claim,
    header_base64: String,
    address_seed: AddressSeed,
}

/// What the inputs hold, as mathematics.
pub struct InputsView {
    pub proof_points: ProofView,
    pub iss_base64_details: ClaimView,
    pub header_base64: Seq<char>,
    pub address_seed: Seq<u8>,
}

/// A zkLogin authenticator: the inputs, the last epoch in which it is
/// valid, and the ephemeral key's signature over the transaction.
#[derive(Clone, Debug, PartialEq, Eq)]
pub struct ZkLoginAuthenticator {
    inputs: ZkLoginInputs,
    max_epoch: EpochId,
    signature: SimpleSignature,
}

/// What an authenticator holds, as mathematics.
pub struct AuthenticatorView {
    pub inputs: InputsView,
    pub max_epoch: EpochId,
    pub signature: SimpleSignatureView,
}

/// A key of an identity provider, as its key endpoint publishes it.
#[derive(Clone, Debug, PartialEq, Eq, Hash)]
pub struct Jwk {
    /// The key type.
    pub kty: String,
    /// The RSA public exponent.
    pub e: String,
    /// The RSA modulus.
    pub n: String,
    /// The algorithm.
    pub alg: String,
}

/// What names a provider's key: the issuer and the key's id.
#[derive(Clone, Debug, PartialEq, Eq, Hash)]
pub struct JwkId {
    /// The issuer, which names the provider.
    pub iss: String,
    /// The id of the key.
    pub kid: String,
}

impl View for ZkLoginProof {
    type V = ProofView;

    closed spec fn view(&self) -> ProofView {
        ProofView { a: self.a.deep_view(), b: self.b.deep_view(), c: self.c.deep_view() }
    }
}

impl View for Claim {
    type V = ClaimView;

    closed spec fn view(&self) -> ClaimView {
        ClaimView { value: self.value@, index_mod_4: self.index_mod_4 }
    }
}

impl View for ZkLoginInputs {
    type V = InputsView;

    closed spec fn view(&self) -> InputsView {
        InputsView {
            proof_points: self.proof_points@,
            iss_base64_details: self.iss_base64_details@,
            header_base64: self.header_base64@,
            address_seed: self.address_seed@,
        }
    }
}

impl View for ZkLoginAuthenticator {
    type V = AuthenticatorView;

    closed spec fn view(&self) -> AuthenticatorView {
        AuthenticatorView {
            inputs: self.inputs@,
            max_epoch: self.max_epoch,
            signature: self.signature@,
        }
    }
}

impl ZkLoginProof {
    /// The proof with these points.
    pub fn new(a: CircomG1, b: CircomG2, c: CircomG1) -> (proof_points: ZkLoginProof)
        ensures
            proof_points@ == (ProofView { a: a.deep_view(), b: b.deep_view(), c: c.deep_view() }),
    {
        ZkLoginProof { a, b, c }
    }

    /// The first G1 point.
    pub fn a(&self) -> (a: &CircomG1)
        ensures
            a.deep_view() == self@.a,
    {
        &self.a
    }

    /// The G2 point.
    pub fn b(&self) -> (b: &CircomG2)
        ensures
            b.deep_view() == self@.b,
    {
        &self.b
    }

    /// The second G1 point.
    pub fn c(&self) -> (c: &CircomG1)
        ensures
            c.deep_view() == self@.c,
    {
        &self.c
    }
}

impl Clone for Claim {
    fn clone(&self) -> (copy: Claim)
        ensures
            copy@ == self@,
    {
        proof {
            use_type_invariant(self);
        }
        Claim { value: self.value.clone(), index_mod_4: self.index_mod_4 }
    }
}

impl Claim {
    #[verifier::type_invariant]
    spec fn index_is_below_four(&self) -> bool {
        self.index_mod_4 < 4
    }

    /// The claim, if the index is one of 0, 1, 2 and 3.
    pub fn new(value: String, index_mod_4: u8) -> (claim: Option<Claim>)
        ensures
            claim is Some <==> index_mod_4 < 4,
            claim matches Some(c) ==> c@ == (ClaimView { value: value@, index_mod_4 }),
    {
        if index_mod_4 < 4 {
            Some(Claim { value, index_mod_4 })
        } else {
            None
        }
    }

    /// The fragment of base64 text.
    pub fn value(&self) -> (value: &str)
        ensures
            value@ == self@.value,
    {
        self.value.as_str()
    }

    /// Where the fragment starts within a group of four characters.
    pub fn index_mod_4(&self) -> (index: u8)
        ensures
            index == self@.index_mod_4,
            index < 4,
    {
        proof {
            use_type_invariant(self);
        }
        self.index_mod_4
    }
}

impl ZkLoginInputs {
    /// The inputs with these parts.
    pub fn new(
        proof_points: ZkLoginProof,
        iss_base64_details: Claim,
        header_base64: String,
        address_seed: AddressSeed,
    ) -> (inputs: ZkLoginInputs)
        ensures
            inputs@ == (InputsView {
                proof_points: proof_points@,
                iss_base64_details: iss_base64_details@,
                header_base64: header_base64@,
                address_seed: address_seed@,
            }),
    {
        ZkLoginInputs { proof_points, iss_base64_details, header_base64, address_seed }
    }

    /// The proof points.
    pub fn proof_points(&self) -> (proof_points: &ZkLoginProof)
        ensures
            proof_points@ == self@.proof_points,
    {
        &self.proof_points
    }

    /// The claim that names the issuer.
    pub fn iss_base64_details(&self) -> (claim: &Claim)
        ensures
            claim@ == self@.iss_base64_details,
    {
        &self.iss_base64_details
    }

    /// The token's header, in base64.
    pub fn header_base64(&self) -> (header: &str)
        ensures
            header@ == self@.header_base64,
    {
        self.header_base64.as_str()
    }

    /// The address seed.
    pub fn address_seed(&self) -> (seed: &AddressSeed)
        ensures
            seed@ == self@.address_seed,
    {
        &self.address_seed
    }
}

/// Why bcs refused a byte string.
#[derive(Clone, Copy, Debug, PartialEq, Eq, Structural)]
pub enum BcsFailure {
    /// The input ended inside a value.
    Eof,
    /// Bytes were left after the value.
    RemainingInput,
    /// A string was not well-formed UTF-8.
    Utf8,
    /// Anything else: a length that is not in its shortest form, or too large.
    Other,
}

/// The body of an authenticator as plain values, in the order of the wire:
/// the inputs (the proof points `a`, `b`, `c`; the claim's value and index;
/// the header; the 32 bytes of the address seed), the last epoch, and the
/// compact form of the signature.
pub type Body = (
    ((Vec<String>, Vec<Vec<String>>, Vec<String>), (String, u8), String, [u8; 32]),
    u64,
    Vec<u8>,
);

/// A [`Body`] as mathematics.
pub type BodyModel = (
    ((Seq<Seq<char>>, Seq<Seq<Seq<char>>>, Seq<Seq<char>>), (Seq<char>, u8), Seq<char>, Seq<u8>),
    u64,
    Seq<u8>,
);

/// The bytes that `bcs::to_bytes` gives for a body.
pub uninterp spec fn bcs_body(body: BodyModel) -> Seq<u8>;

/// What `bcs::from_bytes` makes of a byte string, read as a body.
pub uninterp spec fn bcs_parse(bytes: Seq<u8>) -> Result<BodyModel, BcsFailure>;

/// The longest sequence that bcs writes.
pub open spec fn max_sequence_length() -> nat {
    0x7fff_ffff
}

/// Whether every text of a list is short enough for bcs.
pub open spec fn texts_fit(texts: Seq<Seq<char>>) -> bool {
    &&& texts.len() <= max_sequence_length()
    &&& forall|i: int| 0 <= i < texts.len() ==> utf8_len(#[trigger] texts[i]) <= max_sequence_length()
}

/// Whether bcs can write a body: no list and no text in it is longer than
/// the longest sequence that bcs writes.
pub open spec fn body_fits(body: BodyModel) -> bool {
    &&& texts_fit(body.0.0.0)
    &&& body.0.0.1.len() <= max_sequence_length()
    &&& forall|i: int| 0 <= i < body.0.0.1.len() ==> texts_fit(#[trigger] body.0.0.1[i])
    &&& texts_fit(body.0.0.2)
    &&& utf8_len(body.0.1.0) <= max_sequence_length()
    &&& utf8_len(body.0.2) <= max_sequence_length()
    &&& body.2.len() <= max_sequence_length()
}

/// Calls `bcs::to_bytes` on the body of an authenticator.
///
/// Trusted: bcs writes a value unless one of its sequences is longer than
/// `MAX_SEQUENCE_LENGTH`; what it writes is a function of the value alone;
/// and `bcs::from_bytes` reads those bytes back as that value.
#[verifier::external_body]
fn bcs_encode_body(
    body: &(
        ((&Vec<String>, &Vec<Vec<String>>, &Vec<String>), (&String, u8), &String, &[u8; 32]),
        u64,
        &Vec<u8>,
    ),
) -> (bytes: Option<Vec<u8>>)
    ensures
        match bytes {
            Some(b) => {
                &&& body_fits(body.deep_view())
                &&& b@ == bcs_body(body.deep_view())
                &&& bcs_parse(b@) == Ok::<BodyModel, BcsFailure>(body.deep_view())
            },
            None => !body_fits(body.deep_view()),
        },
{
    bcs::to_bytes(body).ok()
}

/// Whether bcs reads a whole body from a part of the bytes that stops short
/// of their end.
pub open spec fn has_whole_prefix(bytes: Seq<u8>) -> bool {
    exists|k: int| 0 <= k < bytes.len() && bcs_parse(#[trigger] bytes.take(k)) is Ok
}

/// Calls `bcs::from_bytes` to read the body of an authenticator.
///
/// Trusted: what bcs returns is a function of the bytes alone; it reads a
/// value only from the bytes that `bcs::to_bytes` writes for that value. It
/// reads from the front: with no bytes at all it reports the end of input,
/// and with bytes left after a whole body it reports remaining input.
#[verifier::external_body]
fn bcs_decode_body(bytes: &[u8]) -> (body: Result<Body, BcsFailure>)
    ensures
        match body {
            Ok(b) => {
                &&& bcs_parse(bytes@) == Ok::<BodyModel, BcsFailure>(b.deep_view())
                &&& bcs_body(b.deep_view()) == bytes@
                &&& body_fits(b.deep_view())
                &&& bytes@.len() > 0
                &&& !has_whole_prefix(bytes@)
            },
            Err(f) => {
                &&& bcs_parse(bytes@) == Err::<BodyModel, BcsFailure>(f)
                &&& (bytes@.len() == 0 ==> f == BcsFailure::Eof)
                &&& (has_whole_prefix(bytes@) ==> f == BcsFailure::RemainingInput)
            },
        },
{
    match bcs::from_bytes::<Body>(bytes) {
        Ok(body) => Ok(body),
        Err(bcs::Error::Eof) => Err(BcsFailure::Eof),
        Err(bcs::Error::RemainingInput) => Err(BcsFailure::RemainingInput),
        Err(bcs::Error::Utf8) => Err(BcsFailure::Utf8),
        Err(_) => Err(BcsFailure::Other),
    }
}

/// The decoder's error for a failure of bcs.
pub open spec fn failure_error(failure: BcsFailure) -> CodecError {
    match failure {
        BcsFailure::Eof => CodecError::TruncatedInput,
        BcsFailure::RemainingInput => CodecError::TrailingData,
        BcsFailure::Utf8 => CodecError::InvalidUtf8,
        BcsFailure::Other => CodecError::MalformedInteger,
    }
}

/// The body of an authenticator.
pub open spec fn body_of(v: AuthenticatorView) -> BodyModel {
    (
        (
            (v.inputs.proof_points.a, v.inputs.proof_points.b, v.inputs.proof_points.c),
            (v.inputs.iss_base64_details.value, v.inputs.iss_base64_details.index_mod_4),
            v.inputs.header_base64,
            v.inputs.address_seed,
        ),
        v.max_epoch,
        simple_bytes(v.signature),
    )
}

/// The values that an authenticator can hold.
pub open spec fn authenticator_wf(v: AuthenticatorView) -> bool {
    &&& v.inputs.iss_base64_details.index_mod_4 < 4
    &&& v.inputs.address_seed.len() == 32
    &&& simple_wf(v.signature)
}

/// The authenticator that a body stands for, or why it stands for none: a
/// claim index of four or more is a malformed integer, and the signature
/// must read as a simple signature.
pub open spec fn authenticator_of_body(body: BodyModel) -> Result<AuthenticatorView, CodecError> {
    if body.0.1.1 >= 4 {
        Err(CodecError::MalformedInteger)
    } else {
        match parse_simple(body.2) {
            Err(e) => Err(e),
            Ok(signature) => Ok(
                AuthenticatorView {
                    inputs: InputsView {
                        proof_points: ProofView { a: body.0.0.0, b: body.0.0.1, c: body.0.0.2 },
                        iss_base64_details: ClaimView {
                            value: body.0.1.0,
                            index_mod_4: body.0.1.1,
                        },
                        header_base64: body.0.2,
                        address_seed: body.0.3,
                    },
                    max_epoch: body.1,
                    signature,
                },
            ),
        }
    }
}

/// The compact form: the tag of zkLogin, then the body as bcs writes it.
pub open spec fn authenticator_bytes(v: AuthenticatorView) -> Seq<u8> {
    seq![SchemeTag::byte_of(SchemeTag::ZkLogin)] + bcs_body(body_of(v))
}

/// Whether a byte string starts with the tag of zkLogin.
pub open spec fn starts_with_tag(bytes: Seq<u8>) -> bool {
    bytes.len() > 0 && bytes[0] == SchemeTag::byte_of(SchemeTag::ZkLogin)
}

/// What a byte string stands for as an authenticator, or why it stands for
/// none. The first byte must be the tag of zkLogin.
pub open spec fn parse_authenticator(bytes: Seq<u8>) -> Result<AuthenticatorView, CodecError> {
    if bytes.len() == 0 {
        Err(CodecError::TruncatedInput)
    } else {
        match SchemeTag::of_byte(bytes[0]) {
            None => Err(CodecError::UnknownScheme),
            Some(scheme) => {
                if scheme != SchemeTag::ZkLogin {
                    Err(CodecError::SchemeMismatch)
                } else {
                    match bcs_parse(bytes.skip(1)) {
                        Err(f) => Err(failure_error(f)),
                        Ok(body) => authenticator_of_body(body),
                    }
                }
            },
        }
    }
}

/// The error that a decoder reports for a failure of bcs.
fn error_of_failure(failure: BcsFailure) -> (e: CodecError)
    ensures
        e == failure_error(failure),
{
    match failure {
        BcsFailure::Eof => CodecError::TruncatedInput,
        BcsFailure::RemainingInput => CodecError::TrailingData,
        BcsFailure::Utf8 => CodecError::InvalidUtf8,
        BcsFailure::Other => CodecError::MalformedInteger,
    }
}

impl ZkLoginAuthenticator {
    /// The authenticator with these parts.
    pub fn new(inputs: ZkLoginInputs, max_epoch: EpochId, signature: SimpleSignature) -> (a:
        ZkLoginAuthenticator)
        ensures
            a@ == (AuthenticatorView { inputs: inputs@, max_epoch, signature: signature@ }),
    {
        ZkLoginAuthenticator { inputs, max_epoch, signature }
    }

    /// The verifier's inputs.
    pub fn inputs(&self) -> (inputs: &ZkLoginInputs)
        ensures
            inputs@ == self@.inputs,
    {
        &self.inputs
    }

    /// The last epoch in which the authenticator is valid.
    pub fn max_epoch(&self) -> (epoch: EpochId)
        ensures
            epoch == self@.max_epoch,
    {
        self.max_epoch
    }

    /// The signature of the ephemeral key.
    pub fn signature(&self) -> (signature: &SimpleSignature)
        ensures
            signature@ == self@.signature,
    {
        &self.signature
    }

    /// The compact form, unless a list or a text of the inputs is longer
    /// than the wire can say.
    pub fn encode_compact(&self) -> (bytes: Option<Vec<u8>>)
        ensures
            authenticator_wf(self@),
            bytes is Some <==> body_fits(body_of(self@)),
            bytes matches Some(b) ==> {
                &&& b@ == authenticator_bytes(self@)
                &&& parse_authenticator(b@) == Ok::<AuthenticatorView, CodecError>(self@)
            },
    {
        proof {
            use_type_invariant(&self.inputs.iss_base64_details);
        }
        let signature = self.signature.encode_compact();
        let body = (
            (
                (
                    &self.inputs.proof_points.a,
                    &self.inputs.proof_points.b,
                    &self.inputs.proof_points.c,
                ),
                (&self.inputs.iss_base64_details.value, self.inputs.iss_base64_details.index_mod_4),
                &self.inputs.header_base64,
                &self.inputs.address_seed.bytes,
            ),
            self.max_epoch,
            &signature,
        );
        assert(body.deep_view() == body_of(self@));
        match bcs_encode_body(&body) {
            None => None,
            Some(encoded) => {
                let mut out: Vec<u8> = Vec::new();
                out.push(SchemeTag::ZkLogin.as_byte());
                push_bytes(&mut out, encoded.as_slice());
                proof {
                    assert(out@ =~= authenticator_bytes(self@));
                    assert(out@.skip(1) =~= encoded@);
                    assert(authenticator_of_body(body_of(self@)) == Ok::<
                        AuthenticatorView,
                        CodecError,
                    >(self@));
                }
                Some(out)
            },
        }
    }

    /// The authenticator that a body stands for.
    pub fn from_parts(body: Body) -> (r: Result<ZkLoginAuthenticator, CodecError>)
        ensures
            match authenticator_of_body(body.deep_view()) {
                Ok(v) => r is Ok && r.unwrap()@ == v,
                Err(e) => r == Err::<ZkLoginAuthenticator, CodecError>(e),
            },
    {
        let ghost model = body.deep_view();
        let (((a, b, c), (value, index_mod_4), header_base64, seed), max_epoch, signature) = body;
        proof {
            assert(seed@ =~= model.0.3);
            assert(signature@ =~= model.2);
            assert(a.deep_view() == model.0.0.0);
            assert(b.deep_view() == model.0.0.1);
            assert(c.deep_view() == model.0.0.2);
            assert(value@ == model.0.1.0);
            assert(header_base64@ == model.0.2);
        }
        let iss_base64_details = match Claim::new(value, index_mod_4) {
            Some(claim) => claim,
            None => {
                return Err(CodecError::MalformedInteger);
            },
        };
        let signature = match SimpleSignature::decode_compact(signature.as_slice()) {
            Ok(s) => s,
            Err(e) => {
                return Err(e);
            },
        };
        let inputs = ZkLoginInputs {
            proof_points: ZkLoginProof { a, b, c },
            iss_base64_details,
            header_base64,
            address_seed: AddressSeed::new(seed),
        };
        Ok(ZkLoginAuthenticator { inputs, max_epoch, signature })
    }

    /// Reads the compact form. The first byte must be the tag of zkLogin; a
    /// byte that names another scheme is a mismatch, and nothing may follow
    /// the body.
    pub fn from_serialized_bytes(bytes: &[u8]) -> (r: Result<ZkLoginAuthenticator, CodecError>)
        ensures
            match parse_authenticator(bytes@) {
                Ok(v) => r is Ok && r.unwrap()@ == v && authenticator_bytes(v) == bytes@,
                Err(e) => r == Err::<ZkLoginAuthenticator, CodecError>(e),
            },
            starts_with_tag(bytes@) && bytes@.len() == 1 ==> r matches Err(
                CodecError::TruncatedInput,
            ),
            starts_with_tag(bytes@) && has_whole_prefix(bytes@.skip(1)) ==> r matches Err(
                CodecError::TrailingData,
            ),
    {
        if bytes.len() == 0 {
            return Err(CodecError::TruncatedInput);
        }
        let flag = match SchemeTag::from_byte(bytes[0]) {
            Ok(flag) => flag,
            Err(e) => {
                return Err(e);
            },
        };
        match flag {
            SchemeTag::ZkLogin => {},
            _ => {
                return Err(CodecError::SchemeMismatch);
            },
        }
        let bcs_bytes = slice_subrange(bytes, 1, bytes.len());
        assert(bcs_bytes@ =~= bytes@.skip(1));
        match bcs_decode_body(bcs_bytes) {
            Err(f) => Err(error_of_failure(f)),
            Ok(body) => {
                proof {
                    if authenticator_of_body(body.deep_view()) is Ok {
                        lemma_body_canonical(body.deep_view());
                    }
                    assert(bytes@ =~= seq![bytes@[0]] + bytes@.skip(1));
                }
                ZkLoginAuthenticator::from_parts(body)
            },
        }
    }
}

/// An authenticator is never read from bytes that start with the tag of
/// another scheme, or with a byte that is no tag at all.
pub proof fn lemma_authenticator_tag_checked(bytes: Seq<u8>)
    requires
        bytes.len() > 0,
        bytes[0] != SchemeTag::byte_of(SchemeTag::ZkLogin),
    ensures
        SchemeTag::of_byte(bytes[0]) is Some ==> parse_authenticator(bytes) == Err::<
            AuthenticatorView,
            CodecError,
        >(CodecError::SchemeMismatch),
        SchemeTag::of_byte(bytes[0]) is None ==> parse_authenticator(bytes) == Err::<
            AuthenticatorView,
            CodecError,
        >(CodecError::UnknownScheme),
{
}

/// Bytes that follow the compact form of an authenticator leave a whole
/// body in front of them: reading the longer bytes reports trailing data.
pub proof fn lemma_bytes_after_authenticator(encoded: Seq<u8>, extra: Seq<u8>)
    requires
        parse_authenticator(encoded) is Ok,
        extra.len() > 0,
    ensures
        starts_with_tag(encoded + extra),
        has_whole_prefix((encoded + extra).skip(1)),
{
    let longer = (encoded + extra).skip(1);
    assert(longer.take(encoded.len() - 1) =~= encoded.skip(1));
}

/// A body that stands for an authenticator is the body that is made from
/// that authenticator.
pub proof fn lemma_body_canonical(body: BodyModel)
    requires
        authenticator_of_body(body) is Ok,
    ensures
        body_of(authenticator_of_body(body).unwrap()) == body,
{
    lemma_simple_canonical(body.2);
}

/// A body that is made from an authenticator stands for that authenticator.
pub proof fn lemma_body_round_trip(v: AuthenticatorView)
    requires
        authenticator_wf(v),
    ensures
        authenticator_of_body(body_of(v)) == Ok::<AuthenticatorView, CodecError>(v),
{
    lemma_simple_round_trip(v.signature);
}

} // verus!
