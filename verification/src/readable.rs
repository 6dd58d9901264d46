//! The readable form: every value as a record of names, texts and numbers,
//! for interchange with people and with tools.
//!
//! The readable form says by name what the compact form says by a tag
//! byte, and writes an address seed in decimal. Reading a readable form
//! checks all that reading a compact form checks.

use vstd::prelude::*;
use crate::address_seed::AddressSeed;
use crate::decimal::{
    be_bytes, be_value, decimal_digits, decimal_value, is_decimal, lemma_be_bytes_of_value,
    lemma_be_value_bound, lemma_decimal_digits_value, pow256,
};
use crate::error::CodecError;
use crate::identifier::{identifier_wf, IdentifierView, ZkLoginPublicIdentifier};
use crate::bitmap::{ascending_below, bitmap_of, lemma_positions_of_bitmap, population, positions};
use crate::keys::{
    Ed25519PublicKey, Ed25519Signature, Secp256k1PublicKey, Secp256k1Signature,
    Secp256r1PublicKey, Secp256r1Signature,
};
use crate::multisig::{
    committee_wf, member_key_scheme, member_key_wf, member_signature_wf, member_wf,
    members_view, multisig_wf, pair_signers, signatures_view, signer_positions,
    signer_signatures, CommitteeView, MemberKeyView, MemberSignatureView,
    MemberView, MultisigAggregatedSignature, MultisigCommittee, MultisigMember,
    MultisigMemberPublicKey, MultisigMemberSignature, MultisigView,
};
use crate::scheme::{lemma_scheme_names, SchemeTag};
use crate::simple::{
    is_simple_scheme, public_key_length, simple_wf, SimpleSignature, SimpleSignatureView,
};
use crate::text::{copy_text_lists, copy_texts, utf8_len};
use crate::user_signature::{
    bcs_reads_back, lemma_user_signature_round_trip, parse_user_signature, user_signature_bytes,
    user_signature_tag, user_signature_wf, UserSignature, UserSignatureView,
};
use crate::zklogin::{
    authenticator_wf, body_of, AuthenticatorView, Claim, ClaimView, InputsView, ProofView,
    ZkLoginAuthenticator, ZkLoginInputs, ZkLoginProof,
};

verus! {

// Address seeds

/// The seed that a decimal text stands for, or a malformed integer.
pub open spec fn seed_of_text(text: Seq<char>) -> Result<Seq<u8>, CodecError> {
    if is_decimal(text) && decimal_value(text) < pow256(32) {
        Ok(be_bytes(decimal_value(text), 32))
    } else {
        Err(CodecError::MalformedInteger)
    }
}

/// The decimal text of a seed.
pub open spec fn text_of_seed(seed: Seq<u8>) -> Seq<char> {
    decimal_digits(be_value(seed))
}

/// The decimal text of a seed stands for that seed.
pub proof fn lemma_seed_text_round_trip(seed: Seq<u8>)
    requires
        seed.len() == 32,
    ensures
        seed_of_text(text_of_seed(seed)) == Ok::<Seq<u8>, CodecError>(seed),
{
    lemma_decimal_digits_value(be_value(seed));
    lemma_be_value_bound(seed);
    lemma_be_bytes_of_value(seed);
}

/// Reads a seed from its decimal text.
fn read_seed(text: &str) -> (r: Result<AddressSeed, CodecError>)
    ensures
        match seed_of_text(text@) {
            Ok(seed) => r is Ok && r.unwrap()@ == seed,
            Err(e) => r == Err::<AddressSeed, CodecError>(e),
        },
{
    match AddressSeed::from_decimal_string(text) {
        Ok(seed) => Ok(seed),
        Err(e) => Err(e.to_codec_error()),
    }
}

// Identifiers

/// The readable form of a zkLogin public identifier.
#[derive(Clone, Debug, PartialEq, Eq)]
pub struct ReadableIdentifier {
    pub iss: String,
    /// The address seed, in decimal.
    pub address_seed: String,
}

/// What a readable identifier holds, as mathematics.
pub struct ReadableIdentifierView {
    pub iss: Seq<char>,
    pub address_seed: Seq<char>,
}

impl View for ReadableIdentifier {
    type V = ReadableIdentifierView;

    open spec fn view(&self) -> ReadableIdentifierView {
        ReadableIdentifierView { iss: self.iss@, address_seed: self.address_seed@ }
    }
}

/// The readable form of an identifier.
pub open spec fn readable_of_identifier(v: IdentifierView) -> ReadableIdentifierView {
    ReadableIdentifierView { iss: v.iss, address_seed: text_of_seed(v.address_seed) }
}

/// The identifier that a readable form stands for, or why it stands for
/// none: an issuer of more than 255 bytes has a length that the identifier
/// cannot hold, and the seed must be a decimal number below `2^256`.
pub open spec fn identifier_of_readable(r: ReadableIdentifierView) -> Result<
    IdentifierView,
    CodecError,
> {
    if utf8_len(r.iss) > 255 {
        Err(CodecError::MalformedInteger)
    } else {
        match seed_of_text(r.address_seed) {
            Err(e) => Err(e),
            Ok(address_seed) => Ok(IdentifierView { iss: r.iss, address_seed }),
        }
    }
}

/// Reading the readable form of an identifier gives the identifier back.
pub proof fn lemma_identifier_readable_round_trip(v: IdentifierView)
    requires
        identifier_wf(v),
    ensures
        identifier_of_readable(readable_of_identifier(v)) == Ok::<IdentifierView, CodecError>(v),
{
    lemma_seed_text_round_trip(v.address_seed);
}

impl ZkLoginPublicIdentifier {
    /// The readable form.
    pub fn encode_readable(&self) -> (r: ReadableIdentifier)
        ensures
            r@ == readable_of_identifier(self@),
            identifier_of_readable(r@) == Ok::<IdentifierView, CodecError>(self@),
    {
        let iss = self.iss().to_owned();
        proof {
            lemma_identifier_readable_round_trip(self@);
        }
        ReadableIdentifier { iss, address_seed: self.address_seed().to_decimal_string() }
    }

    /// Reads the readable form.
    pub fn decode_readable(r: &ReadableIdentifier) -> (id: Result<
        ZkLoginPublicIdentifier,
        CodecError,
    >)
        ensures
            match identifier_of_readable(r@) {
                Ok(v) => id is Ok && id.unwrap()@ == v,
                Err(e) => id == Err::<ZkLoginPublicIdentifier, CodecError>(e),
            },
    {
        if r.iss.as_str().as_bytes().len() > 255 {
            return Err(CodecError::MalformedInteger);
        }
        let seed = match read_seed(r.address_seed.as_str()) {
            Ok(seed) => seed,
            Err(e) => {
                return Err(e);
            },
        };
        match ZkLoginPublicIdentifier::new(r.iss.clone(), seed) {
            Some(id) => Ok(id),
            None => Err(CodecError::MalformedInteger),
        }
    }
}

// Simple signatures

/// The readable form of a simple signature: the scheme by name, and the
/// bytes of the signature and of the public key.
#[derive(Clone, Debug, PartialEq, Eq)]
pub struct ReadableSimpleSignature {
    pub scheme: String,
    pub signature: Vec<u8>,
    pub public_key: Vec<u8>,
}

/// What a readable simple signature holds, as mathematics.
pub struct ReadableSimpleSignatureView {
    pub scheme: Seq<char>,
    pub signature: Seq<u8>,
    pub public_key: Seq<u8>,
}

impl View for ReadableSimpleSignature {
    type V = ReadableSimpleSignatureView;

    open spec fn view(&self) -> ReadableSimpleSignatureView {
        ReadableSimpleSignatureView {
            scheme: self.scheme@,
            signature: self.signature@,
            public_key: self.public_key@,
        }
    }
}

/// The readable form of a simple signature.
pub open spec fn readable_of_simple(v: SimpleSignatureView) -> ReadableSimpleSignatureView {
    ReadableSimpleSignatureView {
        scheme: SchemeTag::name_of(v.scheme),
        signature: v.signature,
        public_key: v.public_key,
    }
}

/// The simple signature with the parts of a readable form, for a scheme
/// that is already known, or why there is none: bytes are missing, or
/// bytes are left over.
pub open spec fn simple_of_parts(scheme: SchemeTag, signature: Seq<u8>, public_key: Seq<u8>) -> Result<
    SimpleSignatureView,
    CodecError,
> {
    if !is_simple_scheme(scheme) {
        Err(CodecError::SchemeMismatch)
    } else if signature.len() < 64 || public_key.len() < public_key_length(scheme) {
        Err(CodecError::TruncatedInput)
    } else if signature.len() > 64 || public_key.len() > public_key_length(scheme) {
        Err(CodecError::TrailingData)
    } else {
        Ok(SimpleSignatureView { scheme, signature, public_key })
    }
}

/// The simple signature that a readable form stands for, or why it stands
/// for none.
pub open spec fn simple_of_readable(r: ReadableSimpleSignatureView) -> Result<
    SimpleSignatureView,
    CodecError,
> {
    match SchemeTag::of_name(r.scheme) {
        None => Err(CodecError::UnknownScheme),
        Some(scheme) => simple_of_parts(scheme, r.signature, r.public_key),
    }
}

/// Reading the readable form of a simple signature gives the signature
/// back.
pub proof fn lemma_simple_readable_round_trip(v: SimpleSignatureView)
    requires
        simple_wf(v),
    ensures
        simple_of_readable(readable_of_simple(v)) == Ok::<SimpleSignatureView, CodecError>(v),
{
    lemma_scheme_names(v.scheme);
}

/// A copy of the bytes of a slice.
pub fn copy_bytes(bytes: &[u8]) -> (copy: Vec<u8>)
    ensures
        copy@ == bytes@,
{
    let mut copy: Vec<u8> = Vec::new();
    copy.extend_from_slice(bytes);
    assert(copy@ =~= bytes@);
    copy
}

/// The simple signature of a known scheme with these parts.
pub fn simple_from_parts(scheme: SchemeTag, signature: &[u8], public_key: &[u8]) -> (r: Result<
    SimpleSignature,
    CodecError,
>)
    ensures
        match simple_of_parts(scheme, signature@, public_key@) {
            Ok(v) => r is Ok && r.unwrap()@ == v,
            Err(e) => r == Err::<SimpleSignature, CodecError>(e),
        },
{
    let key_len: usize = match scheme {
        SchemeTag::Ed25519 => 32,
        SchemeTag::Secp256k1 => 33,
        SchemeTag::Secp256r1 => 33,
        _ => {
            return Err(CodecError::SchemeMismatch);
        },
    };
    if signature.len() < 64 || public_key.len() < key_len {
        return Err(CodecError::TruncatedInput);
    }
    if signature.len() > 64 || public_key.len() > key_len {
        return Err(CodecError::TrailingData);
    }
    match SimpleSignature::from_parts(scheme, signature, public_key) {
        Some(s) => Ok(s),
        None => Err(CodecError::TruncatedInput),
    }
}

impl SimpleSignature {
    /// The readable form.
    pub fn encode_readable(&self) -> (r: ReadableSimpleSignature)
        ensures
            r@ == readable_of_simple(self@),
            simple_of_readable(r@) == Ok::<SimpleSignatureView, CodecError>(self@),
    {
        let scheme = self.scheme();
        proof {
            lemma_simple_readable_round_trip(self@);
        }
        ReadableSimpleSignature {
            scheme: scheme.name().to_owned(),
            signature: copy_bytes(self.signature_bytes()),
            public_key: copy_bytes(self.public_key_bytes()),
        }
    }

    /// Reads the readable form.
    pub fn decode_readable(r: &ReadableSimpleSignature) -> (s: Result<SimpleSignature, CodecError>)
        ensures
            match simple_of_readable(r@) {
                Ok(v) => s is Ok && s.unwrap()@ == v,
                Err(e) => s == Err::<SimpleSignature, CodecError>(e),
            },
    {
        let scheme = match SchemeTag::from_name(r.scheme.as_str()) {
            Ok(scheme) => scheme,
            Err(e) => {
                return Err(e);
            },
        };
        simple_from_parts(scheme, r.signature.as_slice(), r.public_key.as_slice())
    }
}

// zkLogin authenticators

/// The readable form of a claim.
#[derive(Clone, Debug, PartialEq, Eq)]
pub struct ReadableClaim {
    pub value: String,
    pub index_mod_4: u8,
}

/// The readable form of the proof points.
#[derive(Clone, Debug, PartialEq, Eq)]
pub struct ReadableProof {
    pub a: Vec<String>,
    pub b: Vec<Vec<String>>,
    pub c: Vec<String>,
}

/// The readable form of the inputs of a zkLogin proof.
#[derive(Clone, Debug, PartialEq, Eq)]
pub struct ReadableInputs {
    pub proof_points: ReadableProof,
    pub iss_base64_details: ReadableClaim,
    pub header_base64: String,
    /// The address seed, in decimal.
    pub address_seed: String,
}

/// The readable form of a zkLogin authenticator: its three fields by name,
/// without a tag.
#[derive(Clone, Debug, PartialEq, Eq)]
pub struct ReadableAuthenticator {
    pub inputs: ReadableInputs,
    pub max_epoch: u64,
    pub signature: ReadableSimpleSignature,
}

/// What readable inputs hold, as mathematics.
pub struct ReadableInputsView {
    pub proof_points: ProofView,
    pub iss_base64_details: ClaimView,
    pub header_base64: Seq<char>,
    pub address_seed: Seq<char>,
}

/// What a readable authenticator holds, as mathematics.
pub struct ReadableAuthenticatorView {
    pub inputs: ReadableInputsView,
    pub max_epoch: u64,
    pub signature: ReadableSimpleSignatureView,
}

impl View for ReadableClaim {
    type V = ClaimView;

    open spec fn view(&self) -> ClaimView {
        ClaimView { value: self.value@, index_mod_4: self.index_mod_4 }
    }
}

impl View for ReadableProof {
    type V = ProofView;

    open spec fn view(&self) -> ProofView {
        ProofView { a: self.a.deep_view(), b: self.b.deep_view(), c: self.c.deep_view() }
    }
}

impl View for ReadableInputs {
    type V = ReadableInputsView;

    open spec fn view(&self) -> ReadableInputsView {
        ReadableInputsView {
            proof_points: self.proof_points@,
            iss_base64_details: self.iss_base64_details@,
            header_base64: self.header_base64@,
            address_seed: self.address_seed@,
        }
    }
}

impl View for ReadableAuthenticator {
    type V = ReadableAuthenticatorView;

    open spec fn view(&self) -> ReadableAuthenticatorView {
        ReadableAuthenticatorView {
            inputs: self.inputs@,
            max_epoch: self.max_epoch,
            signature: self.signature@,
        }
    }
}

/// The readable form of the inputs.
pub open spec fn readable_of_inputs(v: InputsView) -> ReadableInputsView {
    ReadableInputsView {
        proof_points: v.proof_points,
        iss_base64_details: v.iss_base64_details,
        header_base64: v.header_base64,
        address_seed: text_of_seed(v.address_seed),
    }
}

/// The inputs that a readable form stands for, or why it stands for none:
/// the claim's index must be below four, and the seed a decimal number
/// below `2^256`.
pub open spec fn inputs_of_readable(r: ReadableInputsView) -> Result<InputsView, CodecError> {
    if r.iss_base64_details.index_mod_4 >= 4 {
        Err(CodecError::MalformedInteger)
    } else {
        match seed_of_text(r.address_seed) {
            Err(e) => Err(e),
            Ok(address_seed) => Ok(
                InputsView {
                    proof_points: r.proof_points,
                    iss_base64_details: r.iss_base64_details,
                    header_base64: r.header_base64,
                    address_seed,
                },
            ),
        }
    }
}

/// The readable form of an authenticator.
pub open spec fn readable_of_authenticator(v: AuthenticatorView) -> ReadableAuthenticatorView {
    ReadableAuthenticatorView {
        inputs: readable_of_inputs(v.inputs),
        max_epoch: v.max_epoch,
        signature: readable_of_simple(v.signature),
    }
}

/// The authenticator that a readable form stands for, or why it stands for
/// none.
pub open spec fn authenticator_of_readable(r: ReadableAuthenticatorView) -> Result<
    AuthenticatorView,
    CodecError,
> {
    match inputs_of_readable(r.inputs) {
        Err(e) => Err(e),
        Ok(inputs) => match simple_of_readable(r.signature) {
            Err(e) => Err(e),
            Ok(signature) => Ok(AuthenticatorView { inputs, max_epoch: r.max_epoch, signature }),
        },
    }
}

/// Reading the readable form of an authenticator gives the authenticator
/// back.
pub proof fn lemma_authenticator_readable_round_trip(v: AuthenticatorView)
    requires
        authenticator_wf(v),
    ensures
        authenticator_of_readable(readable_of_authenticator(v)) == Ok::<
            AuthenticatorView,
            CodecError,
        >(v),
{
    lemma_seed_text_round_trip(v.inputs.address_seed);
    lemma_simple_readable_round_trip(v.signature);
}

impl ZkLoginInputs {
    /// The readable form.
    pub fn encode_readable(&self) -> (r: ReadableInputs)
        ensures
            r@ == readable_of_inputs(self@),
            self@.iss_base64_details.index_mod_4 < 4,
            self@.address_seed.len() == 32,
    {
        let proof_points = self.proof_points();
        let claim = self.iss_base64_details();
        ReadableInputs {
            proof_points: ReadableProof {
                a: copy_texts(proof_points.a()),
                b: copy_text_lists(proof_points.b()),
                c: copy_texts(proof_points.c()),
            },
            iss_base64_details: ReadableClaim {
                value: claim.value().to_owned(),
                index_mod_4: claim.index_mod_4(),
            },
            header_base64: self.header_base64().to_owned(),
            address_seed: self.address_seed().to_decimal_string(),
        }
    }

    /// Reads the readable form.
    pub fn decode_readable(r: &ReadableInputs) -> (inputs: Result<ZkLoginInputs, CodecError>)
        ensures
            match inputs_of_readable(r@) {
                Ok(v) => inputs is Ok && inputs.unwrap()@ == v,
                Err(e) => inputs == Err::<ZkLoginInputs, CodecError>(e),
            },
    {
        let claim = match Claim::new(
            r.iss_base64_details.value.clone(),
            r.iss_base64_details.index_mod_4,
        ) {
            Some(claim) => claim,
            None => {
                return Err(CodecError::MalformedInteger);
            },
        };
        let address_seed = match read_seed(r.address_seed.as_str()) {
            Ok(seed) => seed,
            Err(e) => {
                return Err(e);
            },
        };
        let proof_points = ZkLoginProof::new(
            copy_texts(&r.proof_points.a),
            copy_text_lists(&r.proof_points.b),
            copy_texts(&r.proof_points.c),
        );
        Ok(ZkLoginInputs::new(proof_points, claim, r.header_base64.clone(), address_seed))
    }
}

impl ZkLoginAuthenticator {
    /// The readable form.
    pub fn encode_readable(&self) -> (r: ReadableAuthenticator)
        ensures
            authenticator_wf(self@),
            r@ == readable_of_authenticator(self@),
            authenticator_of_readable(r@) == Ok::<AuthenticatorView, CodecError>(self@),
    {
        let inputs = self.inputs().encode_readable();
        let signature = self.signature().encode_readable();
        proof {
            lemma_authenticator_readable_round_trip(self@);
        }
        ReadableAuthenticator { inputs, max_epoch: self.max_epoch(), signature }
    }

    /// Reads the readable form.
    pub fn decode_readable(r: &ReadableAuthenticator) -> (a: Result<
        ZkLoginAuthenticator,
        CodecError,
    >)
        ensures
            match authenticator_of_readable(r@) {
                Ok(v) => a is Ok && a.unwrap()@ == v,
                Err(e) => a == Err::<ZkLoginAuthenticator, CodecError>(e),
            },
    {
        let inputs = match ZkLoginInputs::decode_readable(&r.inputs) {
            Ok(inputs) => inputs,
            Err(e) => {
                return Err(e);
            },
        };
        let signature = match SimpleSignature::decode_readable(&r.signature) {
            Ok(signature) => signature,
            Err(e) => {
                return Err(e);
            },
        };
        Ok(ZkLoginAuthenticator::new(inputs, r.max_epoch, signature))
    }
}

// Multisig

/// What follows the scheme's name in the readable form of a member's key.
#[derive(Clone, Debug, PartialEq, Eq)]
pub enum ReadableKeyBody {
    /// The bytes of a key of a single-key scheme.
    Raw(Vec<u8>),
    /// The identifier of a zkLogin signer.
    ZkLogin(ReadableIdentifier),
}

/// The readable form of a member's key: the scheme by name, then the key.
#[derive(Clone, Debug, PartialEq, Eq)]
pub struct ReadableMemberKey {
    pub scheme: String,
    pub body: ReadableKeyBody,
}

/// The readable form of a member.
#[derive(Clone, Debug, PartialEq, Eq)]
pub struct ReadableMember {
    pub public_key: ReadableMemberKey,
    pub weight: u8,
}

/// The readable form of a committee.
#[derive(Clone, Debug, PartialEq, Eq)]
pub struct ReadableCommittee {
    pub members: Vec<ReadableMember>,
    pub threshold: u16,
}

/// The readable form of a member's signature.
#[derive(Clone, Debug, PartialEq, Eq)]
pub struct ReadableMemberSignature {
    pub scheme: String,
    pub signature: Vec<u8>,
}

/// The readable form of an aggregate: the bitmap of the signers'
/// positions, their signatures in ascending order of position, and the
/// committee.
#[derive(Clone, Debug, PartialEq, Eq)]
pub struct ReadableMultisig {
    pub bitmap: u16,
    pub signatures: Vec<ReadableMemberSignature>,
    pub committee: ReadableCommittee,
}

/// What follows the scheme's name in a readable key, as mathematics.
pub enum ReadableKeyBodyView {
    Raw(Seq<u8>),
    ZkLogin(ReadableIdentifierView),
}

/// What a readable key holds, as mathematics.
pub struct ReadableMemberKeyView {
    pub scheme: Seq<char>,
    pub body: ReadableKeyBodyView,
}

/// What a readable member holds, as mathematics.
pub struct ReadableMemberView {
    pub public_key: ReadableMemberKeyView,
    pub weight: u8,
}

/// What a readable committee holds, as mathematics.
pub struct ReadableCommitteeView {
    pub members: Seq<ReadableMemberView>,
    pub threshold: u16,
}

/// What a readable signature of a member holds, as mathematics.
pub struct ReadableMemberSignatureView {
    pub scheme: Seq<char>,
    pub signature: Seq<u8>,
}

/// What a readable aggregate holds, as mathematics.
pub struct ReadableMultisigView {
    pub bitmap: u16,
    pub signatures: Seq<ReadableMemberSignatureView>,
    pub committee: ReadableCommitteeView,
}

impl View for ReadableKeyBody {
    type V = ReadableKeyBodyView;

    open spec fn view(&self) -> ReadableKeyBodyView {
        match self {
            ReadableKeyBody::Raw(bytes) => ReadableKeyBodyView::Raw(bytes@),
            ReadableKeyBody::ZkLogin(id) => ReadableKeyBodyView::ZkLogin(id@),
        }
    }
}

impl View for ReadableMemberKey {
    type V = ReadableMemberKeyView;

    open spec fn view(&self) -> ReadableMemberKeyView {
        ReadableMemberKeyView { scheme: self.scheme@, body: self.body@ }
    }
}

impl View for ReadableMember {
    type V = ReadableMemberView;

    open spec fn view(&self) -> ReadableMemberView {
        ReadableMemberView { public_key: self.public_key@, weight: self.weight }
    }
}

impl View for ReadableCommittee {
    type V = ReadableCommitteeView;

    open spec fn view(&self) -> ReadableCommitteeView {
        ReadableCommitteeView {
            members: Seq::new(self.members@.len(), |i: int| self.members@[i]@),
            threshold: self.threshold,
        }
    }
}

impl View for ReadableMemberSignature {
    type V = ReadableMemberSignatureView;

    open spec fn view(&self) -> ReadableMemberSignatureView {
        ReadableMemberSignatureView { scheme: self.scheme@, signature: self.signature@ }
    }
}

impl View for ReadableMultisig {
    type V = ReadableMultisigView;

    open spec fn view(&self) -> ReadableMultisigView {
        ReadableMultisigView {
            bitmap: self.bitmap,
            signatures: Seq::new(self.signatures@.len(), |i: int| self.signatures@[i]@),
            committee: self.committee@,
        }
    }
}

/// The readable form of a member's key.
pub open spec fn readable_of_member_key(key: MemberKeyView) -> ReadableMemberKeyView {
    ReadableMemberKeyView {
        scheme: SchemeTag::name_of(member_key_scheme(key)),
        body: match key {
            MemberKeyView::Ed25519(bytes) => ReadableKeyBodyView::Raw(bytes),
            MemberKeyView::Secp256k1(bytes) => ReadableKeyBodyView::Raw(bytes),
            MemberKeyView::Secp256r1(bytes) => ReadableKeyBodyView::Raw(bytes),
            MemberKeyView::ZkLogin(id) => ReadableKeyBodyView::ZkLogin(readable_of_identifier(id)),
        },
    }
}

/// The key of a known length that bytes stand for, or why they stand for
/// none.
pub open spec fn exact_bytes(bytes: Seq<u8>, length: int) -> Result<Seq<u8>, CodecError> {
    if bytes.len() < length {
        Err(CodecError::TruncatedInput)
    } else if bytes.len() > length {
        Err(CodecError::TrailingData)
    } else {
        Ok(bytes)
    }
}

/// The key that a readable form stands for, or why it stands for none. The
/// name must be that of a scheme which a member can have, and what follows
/// must be what that scheme takes.
pub open spec fn member_key_of_readable(r: ReadableMemberKeyView) -> Result<
    MemberKeyView,
    CodecError,
> {
    match SchemeTag::of_name(r.scheme) {
        None => Err(CodecError::UnknownScheme),
        Some(SchemeTag::Ed25519) => match r.body {
            ReadableKeyBodyView::Raw(bytes) => match exact_bytes(bytes, 32) {
                Ok(b) => Ok(MemberKeyView::Ed25519(b)),
                Err(e) => Err(e),
            },
            _ => Err(CodecError::SchemeMismatch),
        },
        Some(SchemeTag::Secp256k1) => match r.body {
            ReadableKeyBodyView::Raw(bytes) => match exact_bytes(bytes, 33) {
                Ok(b) => Ok(MemberKeyView::Secp256k1(b)),
                Err(e) => Err(e),
            },
            _ => Err(CodecError::SchemeMismatch),
        },
        Some(SchemeTag::Secp256r1) => match r.body {
            ReadableKeyBodyView::Raw(bytes) => match exact_bytes(bytes, 33) {
                Ok(b) => Ok(MemberKeyView::Secp256r1(b)),
                Err(e) => Err(e),
            },
            _ => Err(CodecError::SchemeMismatch),
        },
        Some(SchemeTag::ZkLogin) => match r.body {
            ReadableKeyBodyView::ZkLogin(id) => match identifier_of_readable(id) {
                Ok(id) => Ok(MemberKeyView::ZkLogin(id)),
                Err(e) => Err(e),
            },
            _ => Err(CodecError::SchemeMismatch),
        },
        Some(_) => Err(CodecError::SchemeMismatch),
    }
}

/// The readable form of a member.
pub open spec fn readable_of_member(member: MemberView) -> ReadableMemberView {
    ReadableMemberView {
        public_key: readable_of_member_key(member.public_key),
        weight: member.weight,
    }
}

/// The member that a readable form stands for, or why it stands for none.
/// A weight of zero is a malformed integer.
pub open spec fn member_of_readable(r: ReadableMemberView) -> Result<MemberView, CodecError> {
    match member_key_of_readable(r.public_key) {
        Err(e) => Err(e),
        Ok(public_key) => if r.weight == 0 {
            Err(CodecError::MalformedInteger)
        } else {
            Ok(MemberView { public_key, weight: r.weight })
        },
    }
}

/// The readable forms of members.
pub open spec fn readable_of_members(members: Seq<MemberView>) -> Seq<ReadableMemberView> {
    Seq::new(members.len(), |i: int| readable_of_member(members[i]))
}

/// The first `count` members that readable forms stand for, or the error
/// of the first that stands for none.
pub open spec fn members_of_readable(rs: Seq<ReadableMemberView>, count: nat) -> Result<
    Seq<MemberView>,
    CodecError,
>
    decreases count,
{
    if count == 0 {
        Ok(Seq::empty())
    } else {
        match members_of_readable(rs, (count - 1) as nat) {
            Err(e) => Err(e),
            Ok(members) => match member_of_readable(rs[count - 1]) {
                Err(e) => Err(e),
                Ok(member) => Ok(members.push(member)),
            },
        }
    }
}

/// The readable form of a committee.
pub open spec fn readable_of_committee(committee: CommitteeView) -> ReadableCommitteeView {
    ReadableCommitteeView {
        members: readable_of_members(committee.members),
        threshold: committee.threshold,
    }
}

/// The committee that a readable form stands for, or why it stands for
/// none. More than sixteen members cannot be named by a bitmap.
pub open spec fn committee_of_readable(r: ReadableCommitteeView) -> Result<
    CommitteeView,
    CodecError,
> {
    if r.members.len() > 16 {
        Err(CodecError::InvalidMemberIndex)
    } else {
        match members_of_readable(r.members, r.members.len()) {
            Err(e) => Err(e),
            Ok(members) => Ok(CommitteeView { members, threshold: r.threshold }),
        }
    }
}

/// The readable form of a member's signature.
pub open spec fn readable_of_member_signature(s: MemberSignatureView) -> ReadableMemberSignatureView {
    ReadableMemberSignatureView { scheme: SchemeTag::name_of(s.scheme), signature: s.signature }
}

/// The signature that a readable form stands for, or why it stands for
/// none.
pub open spec fn member_signature_of_readable(r: ReadableMemberSignatureView) -> Result<
    MemberSignatureView,
    CodecError,
> {
    match SchemeTag::of_name(r.scheme) {
        None => Err(CodecError::UnknownScheme),
        Some(scheme) => if !is_simple_scheme(scheme) {
            Err(CodecError::SchemeMismatch)
        } else {
            match exact_bytes(r.signature, 64) {
                Ok(signature) => Ok(MemberSignatureView { scheme, signature }),
                Err(e) => Err(e),
            }
        },
    }
}

/// The readable forms of signatures.
pub open spec fn readable_of_signatures(signatures: Seq<MemberSignatureView>) -> Seq<
    ReadableMemberSignatureView,
> {
    Seq::new(signatures.len(), |i: int| readable_of_member_signature(signatures[i]))
}

/// The first `count` signatures that readable forms stand for, or the
/// error of the first that stands for none.
pub open spec fn signatures_of_readable(rs: Seq<ReadableMemberSignatureView>, count: nat) -> Result<
    Seq<MemberSignatureView>,
    CodecError,
>
    decreases count,
{
    if count == 0 {
        Ok(Seq::empty())
    } else {
        match signatures_of_readable(rs, (count - 1) as nat) {
            Err(e) => Err(e),
            Ok(signatures) => match member_signature_of_readable(rs[count - 1]) {
                Err(e) => Err(e),
                Ok(signature) => Ok(signatures.push(signature)),
            },
        }
    }
}

/// The readable form of an aggregate.
pub open spec fn readable_of_multisig(v: MultisigView) -> ReadableMultisigView {
    ReadableMultisigView {
        bitmap: bitmap_of(signer_positions(v.signers)),
        signatures: readable_of_signatures(signer_signatures(v.signers)),
        committee: readable_of_committee(v.committee),
    }
}

/// The aggregate that a readable form stands for, or why it stands for
/// none. As in the compact form, there must be as many signatures as bits
/// that are set, and every bit that is set must name a member.
pub open spec fn multisig_of_readable(r: ReadableMultisigView) -> Result<MultisigView, CodecError> {
    match signatures_of_readable(r.signatures, r.signatures.len()) {
        Err(e) => Err(e),
        Ok(signatures) => match committee_of_readable(r.committee) {
            Err(e) => Err(e),
            Ok(committee) => if population(r.bitmap) != signatures.len() {
                Err(CodecError::InvalidMemberIndex)
            } else if !ascending_below(positions(r.bitmap), committee.members.len() as int) {
                Err(CodecError::InvalidMemberIndex)
            } else {
                Ok(MultisigView { signers: pair_signers(positions(r.bitmap), signatures), committee })
            },
        },
    }
}

/// Reading the readable form of a key gives the key back.
pub proof fn lemma_member_key_readable_round_trip(key: MemberKeyView)
    requires
        member_key_wf(key),
    ensures
        member_key_of_readable(readable_of_member_key(key)) == Ok::<MemberKeyView, CodecError>(key),
{
    lemma_scheme_names(member_key_scheme(key));
    match key {
        MemberKeyView::ZkLogin(id) => {
            lemma_identifier_readable_round_trip(id);
        },
        _ => {},
    }
}

/// Reading the readable forms of members gives the members back.
pub proof fn lemma_members_readable_round_trip(members: Seq<MemberView>, count: nat)
    requires
        count <= members.len(),
        forall|i: int| 0 <= i < members.len() ==> member_wf(#[trigger] members[i]),
    ensures
        members_of_readable(readable_of_members(members), count) == Ok::<
            Seq<MemberView>,
            CodecError,
        >(members.take(count as int)),
    decreases count,
{
    if count == 0 {
        assert(members.take(0) =~= Seq::<MemberView>::empty());
    } else {
        lemma_members_readable_round_trip(members, (count - 1) as nat);
        lemma_member_key_readable_round_trip(members[count - 1].public_key);
        assert(members.take(count - 1).push(members[count - 1]) =~= members.take(count as int));
    }
}

/// Reading the readable forms of signatures gives the signatures back.
pub proof fn lemma_signatures_readable_round_trip(signatures: Seq<MemberSignatureView>, count: nat)
    requires
        count <= signatures.len(),
        forall|i: int| 0 <= i < signatures.len() ==> member_signature_wf(#[trigger] signatures[i]),
    ensures
        signatures_of_readable(readable_of_signatures(signatures), count) == Ok::<
            Seq<MemberSignatureView>,
            CodecError,
        >(signatures.take(count as int)),
    decreases count,
{
    if count == 0 {
        assert(signatures.take(0) =~= Seq::<MemberSignatureView>::empty());
    } else {
        lemma_signatures_readable_round_trip(signatures, (count - 1) as nat);
        lemma_scheme_names(signatures[count - 1].scheme);
        assert(signatures.take(count - 1).push(signatures[count - 1]) =~= signatures.take(
            count as int,
        ));
    }
}

/// Reading the readable form of an aggregate gives the aggregate back.
pub proof fn lemma_multisig_readable_round_trip(v: MultisigView)
    requires
        multisig_wf(v),
    ensures
        multisig_of_readable(readable_of_multisig(v)) == Ok::<MultisigView, CodecError>(v),
{
    let ps = signer_positions(v.signers);
    let signatures = signer_signatures(v.signers);
    lemma_signatures_readable_round_trip(signatures, signatures.len());
    assert(signatures.take(signatures.len() as int) =~= signatures);
    lemma_members_readable_round_trip(v.committee.members, v.committee.members.len());
    assert(v.committee.members.take(v.committee.members.len() as int) =~= v.committee.members);
    assert(ascending_below(ps, 16));
    lemma_positions_of_bitmap(ps);
    assert(pair_signers(ps, signatures) =~= v.signers);
}

/// The bytes, if they are exactly `length`.
fn take_exact(bytes: &[u8], length: usize) -> (r: Result<&[u8], CodecError>)
    ensures
        match exact_bytes(bytes@, length as int) {
            Ok(b) => r is Ok && r.unwrap()@ == b,
            Err(e) => r == Err::<&[u8], CodecError>(e),
        },
{
    if bytes.len() < length {
        Err(CodecError::TruncatedInput)
    } else if bytes.len() > length {
        Err(CodecError::TrailingData)
    } else {
        Ok(bytes)
    }
}

impl MultisigMemberPublicKey {
    /// The readable form.
    pub fn encode_readable(&self) -> (r: ReadableMemberKey)
        ensures
            r@ == readable_of_member_key(self@),
            member_key_wf(self@),
    {
        let scheme = self.scheme().name().to_owned();
        let body = match self {
            MultisigMemberPublicKey::Ed25519(key) => ReadableKeyBody::Raw(
                copy_bytes(key.as_bytes()),
            ),
            MultisigMemberPublicKey::Secp256k1(key) => ReadableKeyBody::Raw(
                copy_bytes(key.as_bytes()),
            ),
            MultisigMemberPublicKey::Secp256r1(key) => ReadableKeyBody::Raw(
                copy_bytes(key.as_bytes()),
            ),
            MultisigMemberPublicKey::ZkLogin(id) => ReadableKeyBody::ZkLogin(id.encode_readable()),
        };
        ReadableMemberKey { scheme, body }
    }

    /// Reads the readable form.
    pub fn decode_readable(r: &ReadableMemberKey) -> (key: Result<
        MultisigMemberPublicKey,
        CodecError,
    >)
        ensures
            match member_key_of_readable(r@) {
                Ok(v) => key is Ok && key.unwrap()@ == v,
                Err(e) => key == Err::<MultisigMemberPublicKey, CodecError>(e),
            },
    {
        let scheme = match SchemeTag::from_name(r.scheme.as_str()) {
            Ok(scheme) => scheme,
            Err(e) => {
                return Err(e);
            },
        };
        match scheme {
            SchemeTag::Ed25519 => match &r.body {
                ReadableKeyBody::Raw(bytes) => match take_exact(bytes.as_slice(), 32) {
                    Err(e) => Err(e),
                    Ok(bytes) => match Ed25519PublicKey::from_bytes(bytes) {
                        Some(key) => Ok(MultisigMemberPublicKey::Ed25519(key)),
                        None => Err(CodecError::TruncatedInput),
                    },
                },
                _ => Err(CodecError::SchemeMismatch),
            },
            SchemeTag::Secp256k1 => match &r.body {
                ReadableKeyBody::Raw(bytes) => match take_exact(bytes.as_slice(), 33) {
                    Err(e) => Err(e),
                    Ok(bytes) => match Secp256k1PublicKey::from_bytes(bytes) {
                        Some(key) => Ok(MultisigMemberPublicKey::Secp256k1(key)),
                        None => Err(CodecError::TruncatedInput),
                    },
                },
                _ => Err(CodecError::SchemeMismatch),
            },
            SchemeTag::Secp256r1 => match &r.body {
                ReadableKeyBody::Raw(bytes) => match take_exact(bytes.as_slice(), 33) {
                    Err(e) => Err(e),
                    Ok(bytes) => match Secp256r1PublicKey::from_bytes(bytes) {
                        Some(key) => Ok(MultisigMemberPublicKey::Secp256r1(key)),
                        None => Err(CodecError::TruncatedInput),
                    },
                },
                _ => Err(CodecError::SchemeMismatch),
            },
            SchemeTag::ZkLogin => match &r.body {
                ReadableKeyBody::ZkLogin(id) => match ZkLoginPublicIdentifier::decode_readable(id) {
                    Ok(id) => Ok(MultisigMemberPublicKey::ZkLogin(id)),
                    Err(e) => Err(e),
                },
                _ => Err(CodecError::SchemeMismatch),
            },
            _ => Err(CodecError::SchemeMismatch),
        }
    }
}

impl MultisigMember {
    /// The readable form.
    pub fn encode_readable(&self) -> (r: ReadableMember)
        ensures
            r@ == readable_of_member(self@),
            member_wf(self@),
    {
        ReadableMember { public_key: self.public_key().encode_readable(), weight: self.weight() }
    }

    /// Reads the readable form.
    pub fn decode_readable(r: &ReadableMember) -> (member: Result<MultisigMember, CodecError>)
        ensures
            match member_of_readable(r@) {
                Ok(v) => member is Ok && member.unwrap()@ == v,
                Err(e) => member == Err::<MultisigMember, CodecError>(e),
            },
    {
        let public_key = match MultisigMemberPublicKey::decode_readable(&r.public_key) {
            Ok(key) => key,
            Err(e) => {
                return Err(e);
            },
        };
        match MultisigMember::new(public_key, r.weight) {
            Some(member) => Ok(member),
            None => Err(CodecError::MalformedInteger),
        }
    }
}

/// Where the member after the first `i` stands for none, no longer list
/// stands for members either, and the error is the same.
pub proof fn lemma_members_of_readable_error(rs: Seq<ReadableMemberView>, i: nat, count: nat)
    requires
        i < count,
        members_of_readable(rs, i) is Ok,
        member_of_readable(rs[i as int]) is Err,
    ensures
        match (members_of_readable(rs, count), member_of_readable(rs[i as int])) {
            (Err(e), Err(f)) => e == f,
            _ => false,
        },
    decreases count - i,
{
    if i + 1 < count {
        lemma_members_of_readable_error(rs, i, (count - 1) as nat);
    }
}

/// Where the signature after the first `i` stands for none, no longer list
/// stands for signatures either, and the error is the same.
pub proof fn lemma_signatures_of_readable_error(
    rs: Seq<ReadableMemberSignatureView>,
    i: nat,
    count: nat,
)
    requires
        i < count,
        signatures_of_readable(rs, i) is Ok,
        member_signature_of_readable(rs[i as int]) is Err,
    ensures
        match (signatures_of_readable(rs, count), member_signature_of_readable(rs[i as int])) {
            (Err(e), Err(f)) => e == f,
            _ => false,
        },
    decreases count - i,
{
    if i + 1 < count {
        lemma_signatures_of_readable_error(rs, i, (count - 1) as nat);
    }
}

impl MultisigCommittee {
    /// The readable form.
    pub fn encode_readable(&self) -> (r: ReadableCommittee)
        ensures
            r@ == readable_of_committee(self@),
            committee_wf(self@),
    {
        let all = self.members();
        let mut members: Vec<ReadableMember> = Vec::new();
        let mut i: usize = 0;
        while i < all.len()
            invariant
                i <= all@.len(),
                members@.len() == i,
                forall|k: int| 0 <= k < i ==> members@[k]@ == readable_of_member(all@[k]@),
            decreases all@.len() - i,
        {
            members.push(all[i].encode_readable());
            i += 1;
        }
        let r = ReadableCommittee { members, threshold: self.threshold() };
        assert(r@.members =~= readable_of_members(members_view(all@)));
        r
    }

    /// Reads the readable form.
    pub fn decode_readable(r: &ReadableCommittee) -> (committee: Result<
        MultisigCommittee,
        CodecError,
    >)
        ensures
            match committee_of_readable(r@) {
                Ok(v) => committee is Ok && committee.unwrap()@ == v,
                Err(e) => committee == Err::<MultisigCommittee, CodecError>(e),
            },
    {
        let count = r.members.len();
        if count > 16 {
            return Err(CodecError::InvalidMemberIndex);
        }
        let mut members: Vec<MultisigMember> = Vec::new();
        let mut i: usize = 0;
        assert(members_view(members@) =~= Seq::<MemberView>::empty());
        while i < count
            invariant
                i <= count <= 16,
                count == r.members@.len(),
                count == r@.members.len(),
                members@.len() == i,
                members_of_readable(r@.members, i as nat) == Ok::<Seq<MemberView>, CodecError>(
                    members_view(members@),
                ),
            ensures
                i == count,
            decreases count - i,
        {
            assert(r@.members[i as int] == r.members@[i as int]@);
            let member = match MultisigMember::decode_readable(&r.members[i]) {
                Ok(member) => member,
                Err(e) => {
                    proof {
                        lemma_members_of_readable_error(r@.members, i as nat, count as nat);
                    }
                    return Err(e);
                },
            };
            let ghost before = members_view(members@);
            members.push(member);
            assert(members_view(members@) =~= before.push(member@));
            i += 1;
        }
        match MultisigCommittee::new(members, r.threshold) {
            Some(committee) => Ok(committee),
            None => Err(CodecError::InvalidMemberIndex),
        }
    }
}

impl MultisigMemberSignature {
    /// The readable form.
    pub fn encode_readable(&self) -> (r: ReadableMemberSignature)
        ensures
            r@ == readable_of_member_signature(self@),
            member_signature_wf(self@),
    {
        ReadableMemberSignature {
            scheme: self.scheme().name().to_owned(),
            signature: copy_bytes(self.as_bytes()),
        }
    }

    /// Reads the readable form.
    pub fn decode_readable(r: &ReadableMemberSignature) -> (s: Result<
        MultisigMemberSignature,
        CodecError,
    >)
        ensures
            match member_signature_of_readable(r@) {
                Ok(v) => s is Ok && s.unwrap()@ == v,
                Err(e) => s == Err::<MultisigMemberSignature, CodecError>(e),
            },
    {
        let scheme = match SchemeTag::from_name(r.scheme.as_str()) {
            Ok(scheme) => scheme,
            Err(e) => {
                return Err(e);
            },
        };
        match scheme {
            SchemeTag::Ed25519 | SchemeTag::Secp256k1 | SchemeTag::Secp256r1 => {},
            _ => {
                return Err(CodecError::SchemeMismatch);
            },
        }
        let bytes = match take_exact(r.signature.as_slice(), 64) {
            Ok(bytes) => bytes,
            Err(e) => {
                return Err(e);
            },
        };
        match scheme {
            SchemeTag::Ed25519 => match Ed25519Signature::from_bytes(bytes) {
                Some(s) => Ok(MultisigMemberSignature::Ed25519(s)),
                None => Err(CodecError::TruncatedInput),
            },
            SchemeTag::Secp256k1 => match Secp256k1Signature::from_bytes(bytes) {
                Some(s) => Ok(MultisigMemberSignature::Secp256k1(s)),
                None => Err(CodecError::TruncatedInput),
            },
            _ => match Secp256r1Signature::from_bytes(bytes) {
                Some(s) => Ok(MultisigMemberSignature::Secp256r1(s)),
                None => Err(CodecError::TruncatedInput),
            },
        }
    }
}

impl MultisigAggregatedSignature {
    /// The readable form.
    pub fn encode_readable(&self) -> (r: ReadableMultisig)
        ensures
            r@ == readable_of_multisig(self@),
            multisig_of_readable(r@) == Ok::<MultisigView, CodecError>(self@),
    {
        let signers = self.signers();
        proof {
            lemma_multisig_readable_round_trip(self@);
        }
        let mut signatures: Vec<ReadableMemberSignature> = Vec::new();
        let mut i: usize = 0;
        while i < signers.len()
            invariant
                i <= signers@.len(),
                signatures@.len() == i,
                forall|k: int|
                    0 <= k < i ==> signatures@[k]@ == readable_of_member_signature(
                        signers@[k]@.signature,
                    ),
            decreases signers@.len() - i,
        {
            signatures.push(signers[i].signature.encode_readable());
            i += 1;
        }
        let r = ReadableMultisig {
            bitmap: self.bitmap(),
            signatures,
            committee: self.committee().encode_readable(),
        };
        assert(r@.signatures =~= readable_of_signatures(signer_signatures(self@.signers)));
        r
    }

    /// Reads the readable form.
    pub fn decode_readable(r: &ReadableMultisig) -> (a: Result<
        MultisigAggregatedSignature,
        CodecError,
    >)
        ensures
            match multisig_of_readable(r@) {
                Ok(v) => a is Ok && a.unwrap()@ == v,
                Err(e) => a == Err::<MultisigAggregatedSignature, CodecError>(e),
            },
    {
        let count = r.signatures.len();
        let mut signatures: Vec<MultisigMemberSignature> = Vec::new();
        let mut i: usize = 0;
        assert(signatures_view(signatures@) =~= Seq::<MemberSignatureView>::empty());
        while i < count
            invariant
                i <= count,
                count == r.signatures@.len(),
                count == r@.signatures.len(),
                signatures@.len() == i,
                signatures_of_readable(r@.signatures, i as nat) == Ok::<
                    Seq<MemberSignatureView>,
                    CodecError,
                >(signatures_view(signatures@)),
            ensures
                i == count,
            decreases count - i,
        {
            assert(r@.signatures[i as int] == r.signatures@[i as int]@);
            let signature = match MultisigMemberSignature::decode_readable(&r.signatures[i]) {
                Ok(signature) => signature,
                Err(e) => {
                    proof {
                        lemma_signatures_of_readable_error(r@.signatures, i as nat, count as nat);
                    }
                    return Err(e);
                },
            };
            let ghost before = signatures_view(signatures@);
            signatures.push(signature);
            assert(signatures_view(signatures@) =~= before.push(signature@));
            i += 1;
        }
        let committee = match MultisigCommittee::decode_readable(&r.committee) {
            Ok(committee) => committee,
            Err(e) => {
                return Err(e);
            },
        };
        MultisigAggregatedSignature::from_bitmap(committee, r.bitmap, signatures)
    }
}

// User signatures

/// What follows the scheme's name in the readable form of a user
/// signature.
#[derive(Clone, Debug, PartialEq, Eq)]
pub enum ReadableBody {
    Simple { signature: Vec<u8>, public_key: Vec<u8> },
    Multisig(ReadableMultisig),
    ZkLogin(ReadableAuthenticator),
}

/// The readable form of a user signature: the scheme by name, which says
/// which variant follows, and the variant.
#[derive(Clone, Debug, PartialEq, Eq)]
pub struct ReadableUserSignature {
    pub scheme: String,
    pub body: ReadableBody,
}

/// What follows the scheme's name, as mathematics.
pub enum ReadableBodyView {
    Simple { signature: Seq<u8>, public_key: Seq<u8> },
    Multisig(ReadableMultisigView),
    ZkLogin(ReadableAuthenticatorView),
}

/// What a readable user signature holds, as mathematics.
pub struct ReadableUserSignatureView {
    pub scheme: Seq<char>,
    pub body: ReadableBodyView,
}

impl View for ReadableBody {
    type V = ReadableBodyView;

    open spec fn view(&self) -> ReadableBodyView {
        match self {
            ReadableBody::Simple { signature, public_key } => ReadableBodyView::Simple {
                signature: signature@,
                public_key: public_key@,
            },
            ReadableBody::Multisig(m) => ReadableBodyView::Multisig(m@),
            ReadableBody::ZkLogin(a) => ReadableBodyView::ZkLogin(a@),
        }
    }
}

impl View for ReadableUserSignature {
    type V = ReadableUserSignatureView;

    open spec fn view(&self) -> ReadableUserSignatureView {
        ReadableUserSignatureView { scheme: self.scheme@, body: self.body@ }
    }
}

/// The readable form of a user signature.
pub open spec fn readable_of_user_signature(v: UserSignatureView) -> ReadableUserSignatureView {
    ReadableUserSignatureView {
        scheme: SchemeTag::name_of(user_signature_tag(v)),
        body: match v {
            UserSignatureView::Simple(s) => ReadableBodyView::Simple {
                signature: s.signature,
                public_key: s.public_key,
            },
            UserSignatureView::Multisig(m) => ReadableBodyView::Multisig(readable_of_multisig(m)),
            UserSignatureView::ZkLogin(z) => ReadableBodyView::ZkLogin(
                readable_of_authenticator(z),
            ),
        },
    }
}

/// The user signature that a readable form stands for, or why it stands
/// for none. The name must be that of a scheme, and what follows must be
/// the variant of that scheme; otherwise name and variant do not match.
pub open spec fn user_signature_of_readable(r: ReadableUserSignatureView) -> Result<
    UserSignatureView,
    CodecError,
> {
    match SchemeTag::of_name(r.scheme) {
        None => Err(CodecError::UnknownScheme),
        Some(scheme) => match r.body {
            ReadableBodyView::Simple { signature, public_key } => match simple_of_parts(
                scheme,
                signature,
                public_key,
            ) {
                Ok(s) => Ok(UserSignatureView::Simple(s)),
                Err(e) => Err(e),
            },
            ReadableBodyView::Multisig(m) => if scheme != SchemeTag::Multisig {
                Err(CodecError::SchemeMismatch)
            } else {
                match multisig_of_readable(m) {
                    Ok(m) => Ok(UserSignatureView::Multisig(m)),
                    Err(e) => Err(e),
                }
            },
            ReadableBodyView::ZkLogin(a) => if scheme != SchemeTag::ZkLogin {
                Err(CodecError::SchemeMismatch)
            } else {
                match authenticator_of_readable(a) {
                    Ok(z) => Ok(UserSignatureView::ZkLogin(z)),
                    Err(e) => Err(e),
                }
            },
        },
    }
}

/// Reading the readable form of a user signature gives the signature back.
pub proof fn lemma_user_signature_readable_round_trip(v: UserSignatureView)
    requires
        user_signature_wf(v),
    ensures
        user_signature_of_readable(readable_of_user_signature(v)) == Ok::<
            UserSignatureView,
            CodecError,
        >(v),
{
    lemma_scheme_names(user_signature_tag(v));
    match v {
        UserSignatureView::Simple(s) => {},
        UserSignatureView::Multisig(m) => {
            lemma_multisig_readable_round_trip(m);
        },
        UserSignatureView::ZkLogin(z) => {
            lemma_authenticator_readable_round_trip(z);
        },
    }
}

/// The two forms agree: what is read from the compact form of a user
/// signature and what is read from its readable form are the same value,
/// the signature itself. For a zkLogin authenticator this holds of every
/// body that bcs reads back.
pub proof fn lemma_dual_format(v: UserSignatureView)
    requires
        user_signature_wf(v),
        v matches UserSignatureView::ZkLogin(z) ==> bcs_reads_back(body_of(z)),
    ensures
        parse_user_signature(user_signature_bytes(v)) == Ok::<UserSignatureView, CodecError>(v),
        user_signature_of_readable(readable_of_user_signature(v)) == Ok::<
            UserSignatureView,
            CodecError,
        >(v),
        parse_user_signature(user_signature_bytes(v)) == user_signature_of_readable(
            readable_of_user_signature(v),
        ),
{
    lemma_user_signature_round_trip(v);
    lemma_user_signature_readable_round_trip(v);
}

impl UserSignature {
    /// The readable form.
    pub fn encode_readable(&self) -> (r: ReadableUserSignature)
        ensures
            r@ == readable_of_user_signature(self@),
            user_signature_of_readable(r@) == Ok::<UserSignatureView, CodecError>(self@),
    {
        let scheme = self.scheme().name().to_owned();
        let body = match self {
            UserSignature::Simple(s) => {
                let _ = s.scheme();
                ReadableBody::Simple {
                    signature: copy_bytes(s.signature_bytes()),
                    public_key: copy_bytes(s.public_key_bytes()),
                }
            },
            UserSignature::Multisig(m) => {
                let _ = m.signers();
                ReadableBody::Multisig(m.encode_readable())
            },
            UserSignature::ZkLogin(z) => ReadableBody::ZkLogin(z.encode_readable()),
        };
        proof {
            lemma_user_signature_readable_round_trip(self@);
        }
        ReadableUserSignature { scheme, body }
    }

    /// Reads the readable form.
    pub fn decode_readable(r: &ReadableUserSignature) -> (s: Result<UserSignature, CodecError>)
        ensures
            match user_signature_of_readable(r@) {
                Ok(v) => s is Ok && s.unwrap()@ == v,
                Err(e) => s == Err::<UserSignature, CodecError>(e),
            },
    {
        let scheme = match SchemeTag::from_name(r.scheme.as_str()) {
            Ok(scheme) => scheme,
            Err(e) => {
                return Err(e);
            },
        };
        match &r.body {
            ReadableBody::Simple { signature, public_key } => match simple_from_parts(
                scheme,
                signature.as_slice(),
                public_key.as_slice(),
            ) {
                Ok(s) => Ok(UserSignature::Simple(s)),
                Err(e) => Err(e),
            },
            ReadableBody::Multisig(m) => {
                match scheme {
                    SchemeTag::Multisig => {},
                    _ => {
                        return Err(CodecError::SchemeMismatch);
                    },
                }
                match MultisigAggregatedSignature::decode_readable(m) {
                    Ok(m) => Ok(UserSignature::Multisig(m)),
                    Err(e) => Err(e),
                }
            },
            ReadableBody::ZkLogin(a) => {
                match scheme {
                    SchemeTag::ZkLogin => {},
                    _ => {
                        return Err(CodecError::SchemeMismatch);
                    },
                }
                match ZkLoginAuthenticator::decode_readable(a) {
                    Ok(z) => Ok(UserSignature::ZkLogin(Box::new(z))),
                    Err(e) => Err(e),
                }
            },
        }
    }
}

} // verus!
