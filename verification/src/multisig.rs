//! Weighted threshold signatures: a committee of members with weights, and
//! an aggregate that says which members signed and holds their signatures.
//!
//! Members are known by their position in the committee. An aggregate holds
//! its signers as pairs of a position and a signature, in ascending order of
//! position, so that the bitmap on the wire and the list of signatures
//! cannot disagree.

use vstd::prelude::*;
use vstd::slice::slice_subrange;
use crate::bitmap::{
    ascending_below, bitmap_from, bitmap_of, lemma_bitmap_of_positions, lemma_positions_below,
    lemma_positions_of_bitmap, population, positions, positions_of,
};
use crate::error::CodecError;
use crate::identifier::{
    identifier_bytes, identifier_wf, lemma_identifier_canonical, lemma_identifier_round_trip,
    parse_identifier, IdentifierView, ZkLoginPublicIdentifier,
};
use crate::keys::{
    Ed25519PublicKey, Ed25519Signature, Secp256k1PublicKey, Secp256k1Signature,
    Secp256r1PublicKey, Secp256r1Signature,
};
use crate::scheme::SchemeTag;
use crate::simple::is_simple_scheme;
use crate::text::push_bytes;
use crate::wire::{
    lemma_u16_le_canonical, lemma_u16_le_round_trip, push_u16_le, read_u16_le, u16_le, u16_of_le,
};

verus! {

/// The largest committee: one member for each bit of the bitmap.
pub const MAX_MEMBERS: usize = 16;

/// The public key of a member, of any scheme that a member can have.
#[derive(Clone, Debug, PartialEq, Eq)]
pub enum MultisigMemberPublicKey {
    Ed25519(Ed25519PublicKey),
    Secp256k1(Secp256k1PublicKey),
    Secp256r1(Secp256r1PublicKey),
    ZkLogin(ZkLoginPublicIdentifier),
}

/// What a member's key holds, as mathematics.
pub enum MemberKeyView {
    Ed25519(Seq<u8>),
    Secp256k1(Seq<u8>),
    Secp256r1(Seq<u8>),
    ZkLogin(IdentifierView),
}

/// A member of a committee: a key and the weight of its signature.
#[derive(Debug, PartialEq, Eq)]
pub struct MultisigMember {
    public_key: MultisigMemberPublicKey,
    weight: u8,
}

/// What a member holds, as mathematics.
pub struct MemberView {
    pub public_key: MemberKeyView,
    pub weight: u8,
}

/// A committee: its members in order, and the weight that an aggregate
/// needs to speak for it.
#[derive(Debug, PartialEq, Eq)]
pub struct MultisigCommittee {
    members: Vec<MultisigMember>,
    threshold: u16,
}

/// What a committee holds, as mathematics.
pub struct CommitteeView {
    pub members: Seq<MemberView>,
    pub threshold: u16,
}

/// The signature of one member.
#[derive(Clone, Copy, Debug, PartialEq, Eq)]
pub enum MultisigMemberSignature {
    Ed25519(Ed25519Signature),
    Secp256k1(Secp256k1Signature),
    Secp256r1(Secp256r1Signature),
}

/// What a member's signature holds, as mathematics.
pub struct MemberSignatureView {
    pub scheme: SchemeTag,
    pub signature: Seq<u8>,
}

/// A member that signed: its position in the committee and its signature.
#[derive(Clone, Copy, Debug, PartialEq, Eq)]
pub struct MultisigSigner {
    pub position: u8,
    pub signature: MultisigMemberSignature,
}

/// What a signer holds, as mathematics.
pub struct SignerView {
    pub position: u8,
    pub signature: MemberSignatureView,
}

/// The signatures of some members of a committee, with the committee.
#[derive(Debug, PartialEq, Eq)]
pub struct MultisigAggregatedSignature {
    signers: Vec<MultisigSigner>,
    committee: MultisigCommittee,
}

/// What an aggregate holds, as mathematics.
pub struct MultisigView {
    pub signers: Seq<SignerView>,
    pub committee: CommitteeView,
}

// Well-formed values

/// The values that a member's key can hold.
pub open spec fn member_key_wf(key: MemberKeyView) -> bool {
    match key {
        MemberKeyView::Ed25519(bytes) => bytes.len() == 32,
        MemberKeyView::Secp256k1(bytes) => bytes.len() == 33,
        MemberKeyView::Secp256r1(bytes) => bytes.len() == 33,
        MemberKeyView::ZkLogin(id) => identifier_wf(id),
    }
}

/// The values that a member can hold: the weight is at least one.
pub open spec fn member_wf(member: MemberView) -> bool {
    member_key_wf(member.public_key) && member.weight >= 1
}

/// The values that a committee can hold: at most sixteen members.
pub open spec fn committee_wf(committee: CommitteeView) -> bool {
    &&& committee.members.len() <= 16
    &&& forall|i: int| 0 <= i < committee.members.len() ==> member_wf(#[trigger] committee.members[i])
}

/// The values that a member's signature can hold.
pub open spec fn member_signature_wf(signature: MemberSignatureView) -> bool {
    is_simple_scheme(signature.scheme) && signature.signature.len() == 64
}

/// The positions of a list of signers.
pub open spec fn signer_positions(signers: Seq<SignerView>) -> Seq<u8> {
    Seq::new(signers.len(), |i: int| signers[i].position)
}

/// The signatures of a list of signers.
pub open spec fn signer_signatures(signers: Seq<SignerView>) -> Seq<MemberSignatureView> {
    Seq::new(signers.len(), |i: int| signers[i].signature)
}

/// The signers that positions and signatures of one length make, pair by
/// pair.
pub open spec fn pair_signers(ps: Seq<u8>, signatures: Seq<MemberSignatureView>) -> Seq<
    SignerView,
> {
    Seq::new(ps.len(), |i: int| SignerView { position: ps[i], signature: signatures[i] })
}

/// The values that an aggregate can hold: the signers stand in ascending
/// order of position, each position names a member of the committee, and
/// no position comes twice.
pub open spec fn multisig_wf(v: MultisigView) -> bool {
    &&& committee_wf(v.committee)
    &&& ascending_below(signer_positions(v.signers), v.committee.members.len() as int)
    &&& forall|i: int| 0 <= i < v.signers.len() ==> member_signature_wf(#[trigger] v.signers[i].signature)
}

// Weights

/// The sum of the weights of the members at the given positions.
pub open spec fn weight_at(members: Seq<MemberView>, ps: Seq<u8>) -> nat
    decreases ps.len(),
{
    if ps.len() == 0 {
        0
    } else {
        weight_at(members, ps.drop_last()) + members[ps.last() as int].weight as nat
    }
}

/// The weight that an aggregate carries: the sum of the weights of the
/// members that signed.
pub open spec fn signed_weight_of(v: MultisigView) -> nat {
    weight_at(v.committee.members, signer_positions(v.signers))
}

/// Whether an aggregate speaks for its committee: the weight that it
/// carries reaches the threshold.
pub open spec fn authoritative(v: MultisigView) -> bool {
    signed_weight_of(v) >= v.committee.threshold
}

// The wire

/// The compact form of a member's key: the tag of its scheme, then the key,
/// or for zkLogin the compact form of the identifier.
pub open spec fn member_key_bytes(key: MemberKeyView) -> Seq<u8> {
    match key {
        MemberKeyView::Ed25519(bytes) => seq![SchemeTag::byte_of(SchemeTag::Ed25519)] + bytes,
        MemberKeyView::Secp256k1(bytes) => seq![SchemeTag::byte_of(SchemeTag::Secp256k1)] + bytes,
        MemberKeyView::Secp256r1(bytes) => seq![SchemeTag::byte_of(SchemeTag::Secp256r1)] + bytes,
        MemberKeyView::ZkLogin(id) => seq![SchemeTag::byte_of(SchemeTag::ZkLogin)]
            + identifier_bytes(id),
    }
}

/// The key at the start of a byte string and the number of bytes it takes,
/// or why there is none.
pub open spec fn parse_member_key(bytes: Seq<u8>) -> Result<(MemberKeyView, int), CodecError> {
    if bytes.len() == 0 {
        Err(CodecError::TruncatedInput)
    } else {
        match SchemeTag::of_byte(bytes[0]) {
            None => Err(CodecError::UnknownScheme),
            Some(SchemeTag::Ed25519) => if bytes.len() < 33 {
                Err(CodecError::TruncatedInput)
            } else {
                Ok((MemberKeyView::Ed25519(bytes.subrange(1, 33)), 33))
            },
            Some(SchemeTag::Secp256k1) => if bytes.len() < 34 {
                Err(CodecError::TruncatedInput)
            } else {
                Ok((MemberKeyView::Secp256k1(bytes.subrange(1, 34)), 34))
            },
            Some(SchemeTag::Secp256r1) => if bytes.len() < 34 {
                Err(CodecError::TruncatedInput)
            } else {
                Ok((MemberKeyView::Secp256r1(bytes.subrange(1, 34)), 34))
            },
            Some(SchemeTag::ZkLogin) => if bytes.len() < 2 {
                Err(CodecError::TruncatedInput)
            } else {
                let end = identifier_end(bytes);
                match parse_identifier(bytes.subrange(1, end)) {
                    Err(e) => Err(e),
                    Ok(id) => Ok((MemberKeyView::ZkLogin(id), end)),
                }
            },
            Some(_) => Err(CodecError::SchemeMismatch),
        }
    }
}

/// Where the identifier of a zkLogin key ends, for a byte string of at
/// least two bytes: after the tag, the length byte, the issuer and the 32
/// bytes of the seed, or at the end of the bytes if that comes first.
pub open spec fn identifier_end(bytes: Seq<u8>) -> int {
    let end = 2 + bytes[1] as int + 32;
    if bytes.len() < end {
        bytes.len() as int
    } else {
        end
    }
}

/// The compact form of a member: the key, then the weight.
pub open spec fn member_bytes(member: MemberView) -> Seq<u8> {
    member_key_bytes(member.public_key) + seq![member.weight]
}

/// The member at the start of a byte string and the number of bytes it
/// takes, or why there is none. A weight of zero is a malformed integer.
pub open spec fn parse_member(bytes: Seq<u8>) -> Result<(MemberView, int), CodecError> {
    match parse_member_key(bytes) {
        Err(e) => Err(e),
        Ok((public_key, n)) => if bytes.len() < n + 1 {
            Err(CodecError::TruncatedInput)
        } else if bytes[n] == 0 {
            Err(CodecError::MalformedInteger)
        } else {
            Ok((MemberView { public_key, weight: bytes[n] }, n + 1))
        },
    }
}

/// The compact forms of members, one after the other.
pub open spec fn members_bytes(members: Seq<MemberView>) -> Seq<u8>
    decreases members.len(),
{
    if members.len() == 0 {
        Seq::empty()
    } else {
        members_bytes(members.drop_last()) + member_bytes(members.last())
    }
}

/// The first `count` members at the start of a byte string and the number
/// of bytes they take, or the error of the first that cannot be read.
pub open spec fn parse_members(bytes: Seq<u8>, count: nat) -> Result<
    (Seq<MemberView>, int),
    CodecError,
>
    decreases count,
{
    if count == 0 {
        Ok((Seq::empty(), 0))
    } else {
        match parse_members(bytes, (count - 1) as nat) {
            Err(e) => Err(e),
            Ok((members, used)) => match parse_member(bytes.skip(used)) {
                Err(e) => Err(e),
                Ok((member, n)) => Ok((members.push(member), used + n)),
            },
        }
    }
}

/// The compact form of a committee: the number of members in one byte, the
/// members, and the threshold in two bytes.
pub open spec fn committee_bytes(committee: CommitteeView) -> Seq<u8> {
    seq![committee.members.len() as u8] + members_bytes(committee.members) + u16_le(
        committee.threshold,
    )
}

/// The committee at the start of a byte string and the number of bytes it
/// takes, or why there is none. More than sixteen members cannot be named
/// by a bitmap.
pub open spec fn parse_committee(bytes: Seq<u8>) -> Result<(CommitteeView, int), CodecError> {
    if bytes.len() == 0 {
        Err(CodecError::TruncatedInput)
    } else if bytes[0] > 16 {
        Err(CodecError::InvalidMemberIndex)
    } else {
        match parse_members(bytes.skip(1), bytes[0] as nat) {
            Err(e) => Err(e),
            Ok((members, used)) => if bytes.len() < 1 + used + 2 {
                Err(CodecError::TruncatedInput)
            } else {
                Ok(
                    (
                        CommitteeView {
                            members,
                            threshold: u16_of_le(bytes[1 + used], bytes[2 + used]),
                        },
                        1 + used + 2,
                    ),
                )
            },
        }
    }
}

/// The compact form of a member's signature: the tag of its scheme, then
/// the 64 bytes.
pub open spec fn member_signature_bytes(signature: MemberSignatureView) -> Seq<u8> {
    seq![SchemeTag::byte_of(signature.scheme)] + signature.signature
}

/// The signature at the start of a byte string and the number of bytes it
/// takes, or why there is none.
pub open spec fn parse_member_signature(bytes: Seq<u8>) -> Result<
    (MemberSignatureView, int),
    CodecError,
> {
    if bytes.len() == 0 {
        Err(CodecError::TruncatedInput)
    } else {
        match SchemeTag::of_byte(bytes[0]) {
            None => Err(CodecError::UnknownScheme),
            Some(scheme) => if !is_simple_scheme(scheme) {
                Err(CodecError::SchemeMismatch)
            } else if bytes.len() < 65 {
                Err(CodecError::TruncatedInput)
            } else {
                Ok((MemberSignatureView { scheme, signature: bytes.subrange(1, 65) }, 65))
            },
        }
    }
}

/// The compact forms of signatures, one after the other.
pub open spec fn signatures_bytes(signatures: Seq<MemberSignatureView>) -> Seq<u8>
    decreases signatures.len(),
{
    if signatures.len() == 0 {
        Seq::empty()
    } else {
        signatures_bytes(signatures.drop_last()) + member_signature_bytes(signatures.last())
    }
}

/// The first `count` signatures at the start of a byte string and the
/// number of bytes they take, or the error of the first that cannot be
/// read.
pub open spec fn parse_signatures(bytes: Seq<u8>, count: nat) -> Result<
    (Seq<MemberSignatureView>, int),
    CodecError,
>
    decreases count,
{
    if count == 0 {
        Ok((Seq::empty(), 0))
    } else {
        match parse_signatures(bytes, (count - 1) as nat) {
            Err(e) => Err(e),
            Ok((signatures, used)) => match parse_member_signature(bytes.skip(used)) {
                Err(e) => Err(e),
                Ok((signature, n)) => Ok((signatures.push(signature), used + n)),
            },
        }
    }
}

/// The compact form of an aggregate: the tag of multisig, the bitmap of the
/// signers' positions in two bytes, the number of signatures in one byte,
/// the signatures in ascending order of position, and the committee.
pub open spec fn multisig_bytes(v: MultisigView) -> Seq<u8> {
    seq![SchemeTag::byte_of(SchemeTag::Multisig)] + u16_le(
        bitmap_of(signer_positions(v.signers)),
    ) + seq![v.signers.len() as u8] + signatures_bytes(signer_signatures(v.signers))
        + committee_bytes(v.committee)
}

/// What a byte string stands for as an aggregate, or why it stands for
/// none.
///
/// The number of signatures must be the number of bits that are set in the
/// bitmap, and every bit that is set must name a member of the committee;
/// otherwise the bitmap names a member that is not there. The `k`-th
/// signature belongs to the `k`-th set bit, counted from the lowest.
pub open spec fn parse_multisig(bytes: Seq<u8>) -> Result<MultisigView, CodecError> {
    if bytes.len() == 0 {
        Err(CodecError::TruncatedInput)
    } else {
        match SchemeTag::of_byte(bytes[0]) {
            None => Err(CodecError::UnknownScheme),
            Some(scheme) => if scheme != SchemeTag::Multisig {
                Err(CodecError::SchemeMismatch)
            } else if bytes.len() < 4 {
                Err(CodecError::TruncatedInput)
            } else {
                let bitmap = u16_of_le(bytes[1], bytes[2]);
                if population(bitmap) != bytes[3] {
                    Err(CodecError::InvalidMemberIndex)
                } else {
                    match parse_signatures(bytes.skip(4), bytes[3] as nat) {
                        Err(e) => Err(e),
                        Ok((signatures, used)) => match parse_committee(bytes.skip(4 + used)) {
                            Err(e) => Err(e),
                            Ok((committee, n)) => if bytes.len() > 4 + used + n {
                                Err(CodecError::TrailingData)
                            } else if !ascending_below(
                                positions(bitmap),
                                committee.members.len() as int,
                            ) {
                                Err(CodecError::InvalidMemberIndex)
                            } else {
                                Ok(
                                    MultisigView {
                                        signers: pair_signers(positions(bitmap), signatures),
                                        committee,
                                    },
                                )
                            },
                        },
                    }
                }
            },
        }
    }
}

// Laws of the wire

/// A key is read back from the start of any bytes that begin with its
/// compact form.
pub proof fn lemma_member_key_prefix(key: MemberKeyView, rest: Seq<u8>)
    requires
        member_key_wf(key),
    ensures
        parse_member_key(member_key_bytes(key) + rest) == Ok::<(MemberKeyView, int), CodecError>(
            (key, member_key_bytes(key).len() as int),
        ),
{
    let own = member_key_bytes(key);
    let bytes = own + rest;
    match key {
        MemberKeyView::Ed25519(k) => {
            assert(bytes[0] == 0);
            assert(bytes.subrange(1, 33) =~= k);
        },
        MemberKeyView::Secp256k1(k) => {
            assert(bytes[0] == 1);
            assert(bytes.subrange(1, 34) =~= k);
        },
        MemberKeyView::Secp256r1(k) => {
            assert(bytes[0] == 2);
            assert(bytes.subrange(1, 34) =~= k);
        },
        MemberKeyView::ZkLogin(id) => {
            let inner = identifier_bytes(id);
            assert(bytes[0] == 5);
            assert(bytes[1] == inner[0]);
            assert(identifier_end(bytes) == 1 + inner.len());
            assert(bytes.subrange(1, 1 + inner.len() as int) =~= inner);
            lemma_identifier_round_trip(id);
        },
    }
}

/// A member is read back from the start of any bytes that begin with its
/// compact form.
pub proof fn lemma_member_prefix(member: MemberView, rest: Seq<u8>)
    requires
        member_wf(member),
    ensures
        parse_member(member_bytes(member) + rest) == Ok::<(MemberView, int), CodecError>(
            (member, member_bytes(member).len() as int),
        ),
{
    let key = member_key_bytes(member.public_key);
    let bytes = member_bytes(member) + rest;
    assert(bytes =~= key + (seq![member.weight] + rest));
    lemma_member_key_prefix(member.public_key, seq![member.weight] + rest);
    assert(bytes[key.len() as int] == member.weight);
}

/// Members are read back from the start of any bytes that begin with their
/// compact forms.
pub proof fn lemma_members_prefix(members: Seq<MemberView>, rest: Seq<u8>)
    requires
        forall|i: int| 0 <= i < members.len() ==> member_wf(#[trigger] members[i]),
    ensures
        parse_members(members_bytes(members) + rest, members.len()) == Ok::<
            (Seq<MemberView>, int),
            CodecError,
        >((members, members_bytes(members).len() as int)),
    decreases members.len(),
{
    if members.len() == 0 {
        assert(members =~= Seq::<MemberView>::empty());
    } else {
        let init = members.drop_last();
        let last = members.last();
        let bytes = members_bytes(members) + rest;
        let tail = member_bytes(last) + rest;
        let used = members_bytes(init).len() as int;
        assert(bytes =~= members_bytes(init) + tail);
        lemma_members_prefix(init, tail);
        assert(parse_members(bytes, init.len()) == Ok::<(Seq<MemberView>, int), CodecError>(
            (init, used),
        ));
        assert(bytes.skip(used) =~= tail);
        lemma_member_prefix(last, rest);
        assert(init.push(last) =~= members);
        assert(members_bytes(members).len() == used + member_bytes(last).len());
    }
}

/// A committee is read back from the start of any bytes that begin with
/// its compact form.
pub proof fn lemma_committee_prefix(committee: CommitteeView, rest: Seq<u8>)
    requires
        committee_wf(committee),
    ensures
        parse_committee(committee_bytes(committee) + rest) == Ok::<
            (CommitteeView, int),
            CodecError,
        >((committee, committee_bytes(committee).len() as int)),
{
    let list = members_bytes(committee.members);
    let bytes = committee_bytes(committee) + rest;
    let tail = u16_le(committee.threshold) + rest;
    assert(bytes[0] == committee.members.len());
    assert(bytes.skip(1) =~= list + tail);
    lemma_members_prefix(committee.members, tail);
    lemma_u16_le_round_trip(committee.threshold);
    let used = list.len() as int;
    assert(bytes[1 + used] == u16_le(committee.threshold)[0]);
    assert(bytes[2 + used] == u16_le(committee.threshold)[1]);
}

/// A member's signature is read back from the start of any bytes that
/// begin with its compact form.
pub proof fn lemma_member_signature_prefix(signature: MemberSignatureView, rest: Seq<u8>)
    requires
        member_signature_wf(signature),
    ensures
        parse_member_signature(member_signature_bytes(signature) + rest) == Ok::<
            (MemberSignatureView, int),
            CodecError,
        >((signature, 65)),
        member_signature_bytes(signature).len() == 65,
{
    let bytes = member_signature_bytes(signature) + rest;
    assert(bytes[0] == SchemeTag::byte_of(signature.scheme));
    assert(bytes.subrange(1, 65) =~= signature.signature);
}

/// Signatures are read back from the start of any bytes that begin with
/// their compact forms.
pub proof fn lemma_signatures_prefix(signatures: Seq<MemberSignatureView>, rest: Seq<u8>)
    requires
        forall|i: int| 0 <= i < signatures.len() ==> member_signature_wf(#[trigger] signatures[i]),
    ensures
        parse_signatures(signatures_bytes(signatures) + rest, signatures.len()) == Ok::<
            (Seq<MemberSignatureView>, int),
            CodecError,
        >((signatures, signatures_bytes(signatures).len() as int)),
    decreases signatures.len(),
{
    if signatures.len() == 0 {
        assert(signatures =~= Seq::<MemberSignatureView>::empty());
    } else {
        let init = signatures.drop_last();
        let last = signatures.last();
        let bytes = signatures_bytes(signatures) + rest;
        let tail = member_signature_bytes(last) + rest;
        let used = signatures_bytes(init).len() as int;
        assert(bytes =~= signatures_bytes(init) + tail);
        lemma_signatures_prefix(init, tail);
        assert(parse_signatures(bytes, init.len()) == Ok::<
            (Seq<MemberSignatureView>, int),
            CodecError,
        >((init, used)));
        assert(bytes.skip(used) =~= tail);
        lemma_member_signature_prefix(last, rest);
        assert(init.push(last) =~= signatures);
        assert(signatures_bytes(signatures).len() == used + 65);
    }
}

/// Reading the compact form of an aggregate gives the aggregate back: the
/// same signers at the same positions, and the same committee.
pub proof fn lemma_multisig_round_trip(v: MultisigView)
    requires
        multisig_wf(v),
    ensures
        parse_multisig(multisig_bytes(v)) == Ok::<MultisigView, CodecError>(v),
        multisig_bytes(v)[0] == SchemeTag::byte_of(SchemeTag::Multisig),
{
    let ps = signer_positions(v.signers);
    let signatures = signer_signatures(v.signers);
    let bitmap = bitmap_of(ps);
    let bytes = multisig_bytes(v);
    let list = signatures_bytes(signatures);
    let tail = committee_bytes(v.committee);
    assert(ascending_below(ps, 16));
    lemma_positions_of_bitmap(ps);
    lemma_positions_below(bitmap, 16);
    lemma_u16_le_round_trip(bitmap);
    assert(bytes[0] == 3);
    assert(bytes[1] == u16_le(bitmap)[0]);
    assert(bytes[2] == u16_le(bitmap)[1]);
    assert(bytes[3] == v.signers.len());
    assert(bytes.skip(4) =~= list + tail);
    lemma_signatures_prefix(signatures, tail);
    let used = list.len() as int;
    assert(bytes.skip(4 + used) =~= tail + Seq::<u8>::empty());
    lemma_committee_prefix(v.committee, Seq::empty());
    assert(tail + Seq::<u8>::empty() =~= tail);
    assert(pair_signers(ps, signatures) =~= v.signers);
}

/// A key that is read from the start of bytes is well-formed, and the bytes
/// that it takes are its compact form.
pub proof fn lemma_member_key_canonical(bytes: Seq<u8>)
    requires
        parse_member_key(bytes) is Ok,
    ensures
        ({
            let (key, n) = parse_member_key(bytes).unwrap();
            &&& member_key_wf(key)
            &&& 0 < n <= bytes.len()
            &&& member_key_bytes(key) == bytes.take(n)
        }),
{
    let (key, n) = parse_member_key(bytes).unwrap();
    match key {
        MemberKeyView::ZkLogin(id) => {
            let end = identifier_end(bytes);
            lemma_identifier_canonical(bytes.subrange(1, end));
            assert(member_key_bytes(key) =~= bytes.take(n));
        },
        _ => {
            assert(member_key_bytes(key) =~= bytes.take(n));
        },
    }
}

/// A member that is read from the start of bytes is well-formed, and the
/// bytes that it takes are its compact form.
pub proof fn lemma_member_canonical(bytes: Seq<u8>)
    requires
        parse_member(bytes) is Ok,
    ensures
        ({
            let (member, n) = parse_member(bytes).unwrap();
            &&& member_wf(member)
            &&& 0 < n <= bytes.len()
            &&& member_bytes(member) == bytes.take(n)
        }),
{
    let (member, n) = parse_member(bytes).unwrap();
    lemma_member_key_canonical(bytes);
    let (key, k) = parse_member_key(bytes).unwrap();
    assert(bytes.take(n) =~= bytes.take(k) + seq![bytes[k]]);
}

/// Members that are read from the start of bytes are well-formed, and the
/// bytes that they take are their compact forms, one after the other.
pub proof fn lemma_members_canonical(bytes: Seq<u8>, count: nat)
    requires
        parse_members(bytes, count) is Ok,
    ensures
        ({
            let (members, n) = parse_members(bytes, count).unwrap();
            &&& members.len() == count
            &&& forall|i: int| 0 <= i < members.len() ==> member_wf(#[trigger] members[i])
            &&& 0 <= n <= bytes.len()
            &&& members_bytes(members) == bytes.take(n)
        }),
    decreases count,
{
    let (members, n) = parse_members(bytes, count).unwrap();
    if count == 0 {
        assert(members_bytes(members) =~= bytes.take(0));
    } else {
        lemma_members_canonical(bytes, (count - 1) as nat);
        let (init, used) = parse_members(bytes, (count - 1) as nat).unwrap();
        lemma_member_canonical(bytes.skip(used));
        let (last, k) = parse_member(bytes.skip(used)).unwrap();
        assert(members == init.push(last));
        assert(members.drop_last() =~= init);
        assert(bytes.take(n) =~= bytes.take(used) + bytes.skip(used).take(k));
        assert forall|i: int| 0 <= i < members.len() implies member_wf(#[trigger] members[i]) by {
            if i < init.len() {
                assert(members[i] == init[i]);
            }
        }
    }
}

/// A committee that is read from the start of bytes is well-formed, and
/// the bytes that it takes are its compact form.
pub proof fn lemma_committee_canonical(bytes: Seq<u8>)
    requires
        parse_committee(bytes) is Ok,
    ensures
        ({
            let (committee, n) = parse_committee(bytes).unwrap();
            &&& committee_wf(committee)
            &&& 0 < n <= bytes.len()
            &&& committee_bytes(committee) == bytes.take(n)
        }),
{
    let (committee, n) = parse_committee(bytes).unwrap();
    let count = bytes[0] as nat;
    lemma_members_canonical(bytes.skip(1), count);
    let (members, used) = parse_members(bytes.skip(1), count).unwrap();
    lemma_u16_le_canonical(bytes[1 + used], bytes[2 + used]);
    assert(bytes.take(n) =~= seq![bytes[0]] + bytes.skip(1).take(used) + seq![
        bytes[1 + used],
        bytes[2 + used],
    ]);
}

/// A member's signature that is read from the start of bytes is
/// well-formed, and the bytes that it takes are its compact form.
pub proof fn lemma_member_signature_canonical(bytes: Seq<u8>)
    requires
        parse_member_signature(bytes) is Ok,
    ensures
        ({
            let (signature, n) = parse_member_signature(bytes).unwrap();
            &&& member_signature_wf(signature)
            &&& n == 65 <= bytes.len()
            &&& member_signature_bytes(signature) == bytes.take(n)
        }),
{
    let (signature, n) = parse_member_signature(bytes).unwrap();
    assert(member_signature_bytes(signature) =~= bytes.take(n));
}

/// Signatures that are read from the start of bytes are well-formed, and
/// the bytes that they take are their compact forms, one after the other.
pub proof fn lemma_signatures_canonical(bytes: Seq<u8>, count: nat)
    requires
        parse_signatures(bytes, count) is Ok,
    ensures
        ({
            let (signatures, n) = parse_signatures(bytes, count).unwrap();
            &&& signatures.len() == count
            &&& forall|i: int|
                0 <= i < signatures.len() ==> member_signature_wf(#[trigger] signatures[i])
            &&& 0 <= n <= bytes.len()
            &&& signatures_bytes(signatures) == bytes.take(n)
        }),
    decreases count,
{
    let (signatures, n) = parse_signatures(bytes, count).unwrap();
    if count == 0 {
        assert(signatures_bytes(signatures) =~= bytes.take(0));
    } else {
        lemma_signatures_canonical(bytes, (count - 1) as nat);
        let (init, used) = parse_signatures(bytes, (count - 1) as nat).unwrap();
        lemma_member_signature_canonical(bytes.skip(used));
        let (last, k) = parse_member_signature(bytes.skip(used)).unwrap();
        assert(signatures == init.push(last));
        assert(signatures.drop_last() =~= init);
        assert(bytes.take(n) =~= bytes.take(used) + bytes.skip(used).take(k));
        assert forall|i: int| 0 <= i < signatures.len() implies member_signature_wf(
            #[trigger] signatures[i],
        ) by {
            if i < init.len() {
                assert(signatures[i] == init[i]);
            }
        }
    }
}

/// A byte string that reads as an aggregate is the compact form of that
/// aggregate, and of no other: the compact form is canonical.
pub proof fn lemma_multisig_canonical(bytes: Seq<u8>)
    requires
        parse_multisig(bytes) is Ok,
    ensures
        multisig_wf(parse_multisig(bytes).unwrap()),
        multisig_bytes(parse_multisig(bytes).unwrap()) == bytes,
{
    let v = parse_multisig(bytes).unwrap();
    let bitmap = u16_of_le(bytes[1], bytes[2]);
    let count = bytes[3] as nat;
    lemma_signatures_canonical(bytes.skip(4), count);
    let (signatures, used) = parse_signatures(bytes.skip(4), count).unwrap();
    lemma_committee_canonical(bytes.skip(4 + used));
    let (committee, n) = parse_committee(bytes.skip(4 + used)).unwrap();
    let ps = positions(bitmap);
    lemma_bitmap_of_positions(bitmap);
    lemma_u16_le_canonical(bytes[1], bytes[2]);
    assert(signer_positions(v.signers) =~= ps);
    assert(signer_signatures(v.signers) =~= signatures);
    assert(bytes =~= seq![bytes[0]] + seq![bytes[1], bytes[2]] + seq![bytes[3]] + bytes.skip(
        4,
    ).take(used) + bytes.skip(4 + used).take(n));
}

// Keys, members and signatures

impl View for MultisigMemberPublicKey {
    type V = MemberKeyView;

    open spec fn view(&self) -> MemberKeyView {
        match self {
            MultisigMemberPublicKey::Ed25519(key) => MemberKeyView::Ed25519(key@),
            MultisigMemberPublicKey::Secp256k1(key) => MemberKeyView::Secp256k1(key@),
            MultisigMemberPublicKey::Secp256r1(key) => MemberKeyView::Secp256r1(key@),
            MultisigMemberPublicKey::ZkLogin(id) => MemberKeyView::ZkLogin(id@),
        }
    }
}

impl View for MultisigMember {
    type V = MemberView;

    closed spec fn view(&self) -> MemberView {
        MemberView { public_key: self.public_key@, weight: self.weight }
    }
}

impl View for MultisigMemberSignature {
    type V = MemberSignatureView;

    open spec fn view(&self) -> MemberSignatureView {
        match self {
            MultisigMemberSignature::Ed25519(s) => MemberSignatureView {
                scheme: SchemeTag::Ed25519,
                signature: s@,
            },
            MultisigMemberSignature::Secp256k1(s) => MemberSignatureView {
                scheme: SchemeTag::Secp256k1,
                signature: s@,
            },
            MultisigMemberSignature::Secp256r1(s) => MemberSignatureView {
                scheme: SchemeTag::Secp256r1,
                signature: s@,
            },
        }
    }
}

impl View for MultisigSigner {
    type V = SignerView;

    open spec fn view(&self) -> SignerView {
        SignerView { position: self.position, signature: self.signature@ }
    }
}

/// The scheme of a member's key.
pub open spec fn member_key_scheme(key: MemberKeyView) -> SchemeTag {
    match key {
        MemberKeyView::Ed25519(_) => SchemeTag::Ed25519,
        MemberKeyView::Secp256k1(_) => SchemeTag::Secp256k1,
        MemberKeyView::Secp256r1(_) => SchemeTag::Secp256r1,
        MemberKeyView::ZkLogin(_) => SchemeTag::ZkLogin,
    }
}

impl MultisigMemberPublicKey {
    /// The scheme of the key.
    pub fn scheme(&self) -> (scheme: SchemeTag)
        ensures
            scheme == member_key_scheme(self@),
            member_key_wf(self@),
    {
        match self {
            MultisigMemberPublicKey::Ed25519(_) => SchemeTag::Ed25519,
            MultisigMemberPublicKey::Secp256k1(_) => SchemeTag::Secp256k1,
            MultisigMemberPublicKey::Secp256r1(_) => SchemeTag::Secp256r1,
            MultisigMemberPublicKey::ZkLogin(id) => {
                let _ = id.iss();
                SchemeTag::ZkLogin
            },
        }
    }

    /// Appends the compact form of the key.
    pub(crate) fn write(&self, out: &mut Vec<u8>)
        ensures
            member_key_wf(self@),
            final(out)@ == old(out)@ + member_key_bytes(self@),
    {
        out.push(self.scheme().as_byte());
        match self {
            MultisigMemberPublicKey::Ed25519(key) => push_bytes(out, key.as_bytes()),
            MultisigMemberPublicKey::Secp256k1(key) => push_bytes(out, key.as_bytes()),
            MultisigMemberPublicKey::Secp256r1(key) => push_bytes(out, key.as_bytes()),
            MultisigMemberPublicKey::ZkLogin(id) => {
                let inner = id.encode_compact();
                push_bytes(out, inner.as_slice());
            },
        }
        assert(out@ =~= old(out)@ + member_key_bytes(self@));
    }

    /// Reads the key that starts at `start`, and says where it ends.
    pub(crate) fn read(bytes: &[u8], start: usize) -> (r: Result<(MultisigMemberPublicKey, usize), CodecError>)
        requires
            start <= bytes@.len(),
        ensures
            match parse_member_key(bytes@.skip(start as int)) {
                Ok((key, n)) => r is Ok && r.unwrap().0@ == key && r.unwrap().1 == start + n
                    && start + n <= bytes@.len() && member_key_wf(key),
                Err(e) => r == Err::<(MultisigMemberPublicKey, usize), CodecError>(e),
            },
    {
        let len = bytes.len();
        let ghost rest = bytes@.skip(start as int);
        if len - start == 0 {
            return Err(CodecError::TruncatedInput);
        }
        assert(rest[0] == bytes@[start as int]);
        let scheme = match SchemeTag::from_byte(bytes[start]) {
            Ok(scheme) => scheme,
            Err(e) => {
                return Err(e);
            },
        };
        match scheme {
            SchemeTag::Ed25519 => {
                if len - start < 33 {
                    return Err(CodecError::TruncatedInput);
                }
                let region = slice_subrange(bytes, start + 1, start + 33);
                assert(region@ =~= rest.subrange(1, 33));
                match Ed25519PublicKey::from_bytes(region) {
                    Some(key) => Ok((MultisigMemberPublicKey::Ed25519(key), start + 33)),
                    None => Err(CodecError::TruncatedInput),
                }
            },
            SchemeTag::Secp256k1 => {
                if len - start < 34 {
                    return Err(CodecError::TruncatedInput);
                }
                let region = slice_subrange(bytes, start + 1, start + 34);
                assert(region@ =~= rest.subrange(1, 34));
                match Secp256k1PublicKey::from_bytes(region) {
                    Some(key) => Ok((MultisigMemberPublicKey::Secp256k1(key), start + 34)),
                    None => Err(CodecError::TruncatedInput),
                }
            },
            SchemeTag::Secp256r1 => {
                if len - start < 34 {
                    return Err(CodecError::TruncatedInput);
                }
                let region = slice_subrange(bytes, start + 1, start + 34);
                assert(region@ =~= rest.subrange(1, 34));
                match Secp256r1PublicKey::from_bytes(region) {
                    Some(key) => Ok((MultisigMemberPublicKey::Secp256r1(key), start + 34)),
                    None => Err(CodecError::TruncatedInput),
                }
            },
            SchemeTag::ZkLogin => {
                if len - start < 2 {
                    return Err(CodecError::TruncatedInput);
                }
                assert(rest[1] == bytes@[start + 1]);
                let full: usize = 2 + bytes[start + 1] as usize + 32;
                let n: usize = if len - start < full {
                    len - start
                } else {
                    full
                };
                let region = slice_subrange(bytes, start + 1, start + n);
                assert(region@ =~= rest.subrange(1, n as int));
                match ZkLoginPublicIdentifier::decode_compact(region) {
                    Ok(id) => {
                        proof {
                            lemma_identifier_canonical(region@);
                        }
                        Ok((MultisigMemberPublicKey::ZkLogin(id), start + n))
                    },
                    Err(e) => Err(e),
                }
            },
            _ => Err(CodecError::SchemeMismatch),
        }
    }
}

impl Clone for MultisigMember {
    fn clone(&self) -> (copy: MultisigMember)
        ensures
            copy@ == self@,
    {
        proof {
            use_type_invariant(self);
        }
        let public_key = match &self.public_key {
            MultisigMemberPublicKey::Ed25519(key) => MultisigMemberPublicKey::Ed25519(*key),
            MultisigMemberPublicKey::Secp256k1(key) => MultisigMemberPublicKey::Secp256k1(*key),
            MultisigMemberPublicKey::Secp256r1(key) => MultisigMemberPublicKey::Secp256r1(*key),
            MultisigMemberPublicKey::ZkLogin(id) => MultisigMemberPublicKey::ZkLogin(id.clone()),
        };
        MultisigMember { public_key, weight: self.weight }
    }
}

impl MultisigMember {
    #[verifier::type_invariant]
    spec fn well_formed(&self) -> bool {
        member_wf(self@)
    }

    /// A member, if the weight is at least one.
    pub fn new(public_key: MultisigMemberPublicKey, weight: u8) -> (member: Option<MultisigMember>)
        ensures
            member is Some <==> weight >= 1,
            member matches Some(m) ==> m@ == (MemberView { public_key: public_key@, weight }),
    {
        if weight == 0 {
            return None;
        }
        let _ = public_key.scheme();
        Some(MultisigMember { public_key, weight })
    }

    /// The member's key.
    pub fn public_key(&self) -> (key: &MultisigMemberPublicKey)
        ensures
            key@ == self@.public_key,
    {
        &self.public_key
    }

    /// The weight of the member's signature.
    pub fn weight(&self) -> (weight: u8)
        ensures
            weight == self@.weight,
            member_wf(self@),
    {
        proof {
            use_type_invariant(self);
        }
        self.weight
    }

    /// Appends the compact form of the member.
    pub(crate) fn write(&self, out: &mut Vec<u8>)
        ensures
            member_wf(self@),
            final(out)@ == old(out)@ + member_bytes(self@),
    {
        proof {
            use_type_invariant(self);
        }
        self.public_key.write(out);
        out.push(self.weight);
        assert(out@ =~= old(out)@ + member_bytes(self@));
    }

    /// Reads the member that starts at `start`, and says where it ends.
    pub(crate) fn read(bytes: &[u8], start: usize) -> (r: Result<(MultisigMember, usize), CodecError>)
        requires
            start <= bytes@.len(),
        ensures
            match parse_member(bytes@.skip(start as int)) {
                Ok((member, n)) => r is Ok && r.unwrap().0@ == member && r.unwrap().1 == start + n
                    && start + n <= bytes@.len() && member_wf(member),
                Err(e) => r == Err::<(MultisigMember, usize), CodecError>(e),
            },
    {
        let (public_key, end) = match MultisigMemberPublicKey::read(bytes, start) {
            Ok(found) => found,
            Err(e) => {
                return Err(e);
            },
        };
        if bytes.len() - end < 1 {
            return Err(CodecError::TruncatedInput);
        }
        assert(bytes@.skip(start as int)[end - start] == bytes@[end as int]);
        let weight = bytes[end];
        if weight == 0 {
            return Err(CodecError::MalformedInteger);
        }
        Ok((MultisigMember { public_key, weight }, end + 1))
    }
}

impl MultisigMemberSignature {
    /// The scheme of the signature.
    pub fn scheme(&self) -> (scheme: SchemeTag)
        ensures
            scheme == self@.scheme,
            member_signature_wf(self@),
    {
        match self {
            MultisigMemberSignature::Ed25519(_) => SchemeTag::Ed25519,
            MultisigMemberSignature::Secp256k1(_) => SchemeTag::Secp256k1,
            MultisigMemberSignature::Secp256r1(_) => SchemeTag::Secp256r1,
        }
    }

    /// The signature's bytes.
    pub fn as_bytes(&self) -> (bytes: &[u8])
        ensures
            bytes@ == self@.signature,
            bytes@.len() == 64,
    {
        match self {
            MultisigMemberSignature::Ed25519(s) => s.as_bytes(),
            MultisigMemberSignature::Secp256k1(s) => s.as_bytes(),
            MultisigMemberSignature::Secp256r1(s) => s.as_bytes(),
        }
    }

    /// Appends the compact form of the signature.
    pub(crate) fn write(&self, out: &mut Vec<u8>)
        ensures
            member_signature_wf(self@),
            final(out)@ == old(out)@ + member_signature_bytes(self@),
    {
        out.push(self.scheme().as_byte());
        push_bytes(out, self.as_bytes());
        assert(out@ =~= old(out)@ + member_signature_bytes(self@));
    }

    /// Reads the signature that starts at `start`, and says where it ends.
    pub(crate) fn read(bytes: &[u8], start: usize) -> (r: Result<(MultisigMemberSignature, usize), CodecError>)
        requires
            start <= bytes@.len(),
        ensures
            match parse_member_signature(bytes@.skip(start as int)) {
                Ok((s, n)) => r is Ok && r.unwrap().0@ == s && r.unwrap().1 == start + n && start
                    + n <= bytes@.len() && member_signature_wf(s),
                Err(e) => r == Err::<(MultisigMemberSignature, usize), CodecError>(e),
            },
    {
        let len = bytes.len();
        let ghost rest = bytes@.skip(start as int);
        if len - start == 0 {
            return Err(CodecError::TruncatedInput);
        }
        assert(rest[0] == bytes@[start as int]);
        let scheme = match SchemeTag::from_byte(bytes[start]) {
            Ok(scheme) => scheme,
            Err(e) => {
                return Err(e);
            },
        };
        match scheme {
            SchemeTag::Ed25519 | SchemeTag::Secp256k1 | SchemeTag::Secp256r1 => {},
            _ => {
                return Err(CodecError::SchemeMismatch);
            },
        }
        if len - start < 65 {
            return Err(CodecError::TruncatedInput);
        }
        let region = slice_subrange(bytes, start + 1, start + 65);
        assert(region@ =~= rest.subrange(1, 65));
        let signature = match scheme {
            SchemeTag::Ed25519 => match Ed25519Signature::from_bytes(region) {
                Some(s) => MultisigMemberSignature::Ed25519(s),
                None => {
                    return Err(CodecError::TruncatedInput);
                },
            },
            SchemeTag::Secp256k1 => match Secp256k1Signature::from_bytes(region) {
                Some(s) => MultisigMemberSignature::Secp256k1(s),
                None => {
                    return Err(CodecError::TruncatedInput);
                },
            },
            _ => match Secp256r1Signature::from_bytes(region) {
                Some(s) => MultisigMemberSignature::Secp256r1(s),
                None => {
                    return Err(CodecError::TruncatedInput);
                },
            },
        };
        Ok((signature, start + 65))
    }
}

// Committees

/// The members of a list, as mathematics.
pub open spec fn members_view(members: Seq<MultisigMember>) -> Seq<MemberView> {
    Seq::new(members.len(), |i: int| members[i]@)
}

impl View for MultisigCommittee {
    type V = CommitteeView;

    closed spec fn view(&self) -> CommitteeView {
        CommitteeView { members: members_view(self.members@), threshold: self.threshold }
    }
}

impl Clone for MultisigCommittee {
    fn clone(&self) -> (copy: MultisigCommittee)
        ensures
            copy@ == self@,
    {
        proof {
            use_type_invariant(self);
        }
        let mut members: Vec<MultisigMember> = Vec::new();
        let mut i: usize = 0;
        while i < self.members.len()
            invariant
                i <= self.members@.len(),
                members@.len() == i,
                forall|k: int| 0 <= k < i ==> members@[k]@ == self.members@[k]@,
            decreases self.members@.len() - i,
        {
            members.push(self.members[i].clone());
            i += 1;
        }
        assert(members_view(members@) =~= members_view(self.members@));
        MultisigCommittee { members, threshold: self.threshold }
    }
}

impl MultisigCommittee {
    #[verifier::type_invariant]
    spec fn well_formed(&self) -> bool {
        committee_wf(self@)
    }

    /// A committee of these members in this order, if they are at most
    /// sixteen.
    pub fn new(members: Vec<MultisigMember>, threshold: u16) -> (committee: Option<
        MultisigCommittee,
    >)
        ensures
            committee is Some <==> members@.len() <= 16,
            committee matches Some(c) ==> c@ == (CommitteeView {
                members: members_view(members@),
                threshold,
            }),
    {
        if members.len() > MAX_MEMBERS {
            return None;
        }
        let mut i: usize = 0;
        while i < members.len()
            invariant
                i <= members@.len(),
                forall|k: int| 0 <= k < i ==> member_wf(#[trigger] members@[k]@),
            decreases members@.len() - i,
        {
            let _ = members[i].weight();
            i += 1;
        }
        Some(MultisigCommittee { members, threshold })
    }

    /// The members, in the order of their positions.
    pub fn members(&self) -> (members: &Vec<MultisigMember>)
        ensures
            members_view(members@) == self@.members,
            committee_wf(self@),
    {
        proof {
            use_type_invariant(self);
        }
        &self.members
    }

    /// The weight that an aggregate needs to speak for the committee.
    pub fn threshold(&self) -> (threshold: u16)
        ensures
            threshold == self@.threshold,
    {
        self.threshold
    }

    /// Appends the compact form of the committee.
    pub(crate) fn write(&self, out: &mut Vec<u8>)
        ensures
            committee_wf(self@),
            final(out)@ == old(out)@ + committee_bytes(self@),
    {
        proof {
            use_type_invariant(self);
        }
        let count = self.members.len();
        out.push(count as u8);
        let ghost start = out@;
        let mut i: usize = 0;
        while i < count
            invariant
                count == self.members@.len(),
                i <= count,
                out@ == start + members_bytes(members_view(self.members@).take(i as int)),
            decreases count - i,
        {
            proof {
                let all = members_view(self.members@);
                assert(all.take(i + 1).drop_last() =~= all.take(i as int));
                assert(all.take(i + 1).last() == self.members@[i as int]@);
            }
            self.members[i].write(out);
            i += 1;
            assert(out@ =~= start + members_bytes(members_view(self.members@).take(i as int)));
        }
        assert(members_view(self.members@).take(count as int) =~= members_view(self.members@));
        push_u16_le(out, self.threshold);
        assert(out@ =~= old(out)@ + committee_bytes(self@));
    }

    /// Reads the committee that starts at `start`, and says where it ends.
    pub(crate) fn read(bytes: &[u8], start: usize) -> (r: Result<(MultisigCommittee, usize), CodecError>)
        requires
            start <= bytes@.len(),
        ensures
            match parse_committee(bytes@.skip(start as int)) {
                Ok((committee, n)) => r is Ok && r.unwrap().0@ == committee && r.unwrap().1
                    == start + n && start + n <= bytes@.len() && committee_wf(committee),
                Err(e) => r == Err::<(MultisigCommittee, usize), CodecError>(e),
            },
    {
        let len = bytes.len();
        let ghost rest = bytes@.skip(start as int);
        if len - start == 0 {
            return Err(CodecError::TruncatedInput);
        }
        assert(rest[0] == bytes@[start as int]);
        let count = bytes[start] as usize;
        if count > MAX_MEMBERS {
            return Err(CodecError::InvalidMemberIndex);
        }
        let ghost list = rest.skip(1);
        let mut members: Vec<MultisigMember> = Vec::new();
        let mut at: usize = start + 1;
        let mut i: usize = 0;
        assert(members_view(members@) =~= Seq::<MemberView>::empty());
        while i < count
            invariant
                i <= count <= 16,
                start + 1 <= at <= bytes@.len(),
                bytes@[start as int] == count,
                list == bytes@.skip(start as int).skip(1),
                parse_members(list, i as nat) == Ok::<(Seq<MemberView>, int), CodecError>(
                    (members_view(members@), at - start - 1),
                ),
                forall|k: int| 0 <= k < members@.len() ==> member_wf(#[trigger] members@[k]@),
                members@.len() == i,
            ensures
                i == count,
            decreases count - i,
        {
            assert(list.skip(at - start - 1) =~= bytes@.skip(at as int));
            let (member, end) = match MultisigMember::read(bytes, at) {
                Ok(found) => found,
                Err(e) => {
                    proof {
                        assert(bytes@.skip(start as int)[0] == bytes@[start as int]);
                        lemma_parse_members_error(list, i as nat, count as nat);
                    }
                    return Err(e);
                },
            };
            let ghost before = members_view(members@);
            members.push(member);
            assert(members_view(members@) =~= before.push(member@));
            at = end;
            i += 1;
        }
        if len - at < 2 {
            return Err(CodecError::TruncatedInput);
        }
        assert(rest[at - start] == bytes@[at as int]);
        assert(rest[at - start + 1] == bytes@[at + 1]);
        let threshold = read_u16_le(bytes[at], bytes[at + 1]);
        Ok((MultisigCommittee { members, threshold }, at + 2))
    }
}

/// Where no list of `i` members can be read, no longer list can be read
/// either, and the error is the same.
pub proof fn lemma_parse_members_error(bytes: Seq<u8>, i: nat, count: nat)
    requires
        i < count,
        parse_members(bytes, i) is Ok,
        parse_member(bytes.skip(parse_members(bytes, i).unwrap().1)) is Err,
    ensures
        match (
            parse_members(bytes, count),
            parse_member(bytes.skip(parse_members(bytes, i).unwrap().1)),
        ) {
            (Err(e), Err(f)) => e == f,
            _ => false,
        },
    decreases count - i,
{
    if i + 1 < count {
        lemma_parse_members_error_step(bytes, (i + 1) as nat, count);
    }
}

/// An error in reading a list of members is the error of every longer
/// list.
pub proof fn lemma_parse_members_error_step(bytes: Seq<u8>, i: nat, count: nat)
    requires
        i <= count,
        parse_members(bytes, i) is Err,
    ensures
        parse_members(bytes, count) == parse_members(bytes, i),
    decreases count - i,
{
    if i < count {
        lemma_parse_members_error_step(bytes, i, (count - 1) as nat);
    }
}

// Aggregates

/// The signers of a list, as mathematics.
pub open spec fn signers_view(signers: Seq<MultisigSigner>) -> Seq<SignerView> {
    Seq::new(signers.len(), |i: int| signers[i]@)
}

/// The signatures of a list, as mathematics.
pub open spec fn signatures_view(signatures: Seq<MultisigMemberSignature>) -> Seq<
    MemberSignatureView,
> {
    Seq::new(signatures.len(), |i: int| signatures[i]@)
}

impl View for MultisigAggregatedSignature {
    type V = MultisigView;

    closed spec fn view(&self) -> MultisigView {
        MultisigView { signers: signers_view(self.signers@), committee: self.committee@ }
    }
}

/// An error in reading a list of signatures is the error of every longer
/// list.
pub proof fn lemma_parse_signatures_error_step(bytes: Seq<u8>, i: nat, count: nat)
    requires
        i <= count,
        parse_signatures(bytes, i) is Err,
    ensures
        parse_signatures(bytes, count) == parse_signatures(bytes, i),
    decreases count - i,
{
    if i < count {
        lemma_parse_signatures_error_step(bytes, i, (count - 1) as nat);
    }
}

/// Where the signature after a list of `i` signatures cannot be read, no
/// longer list can be read either, and the error is the same.
pub proof fn lemma_parse_signatures_error(bytes: Seq<u8>, i: nat, count: nat)
    requires
        i < count,
        parse_signatures(bytes, i) is Ok,
        parse_member_signature(bytes.skip(parse_signatures(bytes, i).unwrap().1)) is Err,
    ensures
        match (
            parse_signatures(bytes, count),
            parse_member_signature(bytes.skip(parse_signatures(bytes, i).unwrap().1)),
        ) {
            (Err(e), Err(f)) => e == f,
            _ => false,
        },
{
    lemma_parse_signatures_error_step(bytes, (i + 1) as nat, count);
}

/// The members at some positions weigh at most 255 each.
pub proof fn lemma_weight_at_bound(members: Seq<MemberView>, ps: Seq<u8>)
    ensures
        weight_at(members, ps) <= 255 * ps.len(),
    decreases ps.len(),
{
    if ps.len() > 0 {
        lemma_weight_at_bound(members, ps.drop_last());
    }
}

/// The weight that an aggregate carries fits in sixteen bits with room to
/// spare: sixteen members of weight 255 weigh 4080.
pub proof fn lemma_signed_weight_fits(v: MultisigView)
    requires
        multisig_wf(v),
    ensures
        signed_weight_of(v) <= 4080,
{
    let ps = signer_positions(v.signers);
    lemma_weight_at_bound(v.committee.members, ps);
    lemma_ascending_length(ps, 16);
}

/// An ascending list of positions below a limit has at most as many
/// positions as the limit.
pub proof fn lemma_ascending_length(ps: Seq<u8>, limit: int)
    requires
        ascending_below(ps, limit),
        0 <= limit,
    ensures
        ps.len() <= limit,
    decreases ps.len(),
{
    if ps.len() > 0 {
        let init = ps.drop_last();
        assert(ascending_below(init, ps.last() as int)) by {
            assert forall|i: int| 0 <= i < init.len() implies (#[trigger] init[i]) < ps.last() by {
                assert(init[i] == ps[i]);
                assert(ps[i] < ps[ps.len() - 1]);
            }
            assert forall|i: int, j: int| 0 <= i < j < init.len() implies init[i] < init[j] by {
                assert(init[i] == ps[i] && init[j] == ps[j]);
            }
        }
        lemma_ascending_length(init, ps.last() as int);
    }
}

/// The signers for positions and signatures of one length, pair by pair.
fn pair_up(ps: &Vec<u8>, signatures: &Vec<MultisigMemberSignature>) -> (signers: Vec<
    MultisigSigner,
>)
    requires
        ps@.len() == signatures@.len(),
    ensures
        signers_view(signers@) == pair_signers(ps@, signatures_view(signatures@)),
        signer_positions(signers_view(signers@)) == ps@,
        signer_signatures(signers_view(signers@)) == signatures_view(signatures@),
{
    let mut signers: Vec<MultisigSigner> = Vec::new();
    let mut i: usize = 0;
    while i < ps.len()
        invariant
            ps@.len() == signatures@.len(),
            i <= ps@.len(),
            signers@.len() == i,
            forall|k: int| 0 <= k < i ==> (#[trigger] signers@[k]).position == ps@[k],
            forall|k: int| 0 <= k < i ==> (#[trigger] signers@[k]).signature == signatures@[k],
        decreases ps@.len() - i,
    {
        signers.push(MultisigSigner { position: ps[i], signature: signatures[i] });
        i += 1;
    }
    assert(signers_view(signers@) =~= pair_signers(ps@, signatures_view(signatures@)));
    assert(signer_positions(signers_view(signers@)) =~= ps@);
    assert(signer_signatures(signers_view(signers@)) =~= signatures_view(signatures@));
    signers
}

/// Whether every position of an ascending list names one of `members`
/// members.
fn all_below(ps: &Vec<u8>, members: usize) -> (yes: bool)
    requires
        ascending_below(ps@, 256),
    ensures
        yes == ascending_below(ps@, members as int),
{
    let mut i: usize = 0;
    while i < ps.len()
        invariant
            i <= ps@.len(),
            ascending_below(ps@, 256),
            forall|k: int| 0 <= k < i ==> (#[trigger] ps@[k]) < members,
        decreases ps@.len() - i,
    {
        if ps[i] as usize >= members {
            return false;
        }
        i += 1;
    }
    true
}

impl Clone for MultisigAggregatedSignature {
    fn clone(&self) -> (copy: MultisigAggregatedSignature)
        ensures
            copy@ == self@,
    {
        proof {
            use_type_invariant(self);
        }
        let mut signers: Vec<MultisigSigner> = Vec::new();
        let mut i: usize = 0;
        while i < self.signers.len()
            invariant
                i <= self.signers@.len(),
                signers@.len() == i,
                forall|k: int| 0 <= k < i ==> signers@[k] == self.signers@[k],
            decreases self.signers@.len() - i,
        {
            signers.push(self.signers[i]);
            i += 1;
        }
        assert(signers_view(signers@) =~= signers_view(self.signers@));
        MultisigAggregatedSignature { signers, committee: self.committee.clone() }
    }
}

impl MultisigAggregatedSignature {
    #[verifier::type_invariant]
    spec fn well_formed(&self) -> bool {
        multisig_wf(self@)
    }

    /// The aggregate of these signers for this committee.
    ///
    /// The signers must stand in ascending order of position, without a
    /// position twice, and each position must name a member; otherwise a
    /// position names a member that is not there.
    pub fn new(committee: MultisigCommittee, signers: Vec<MultisigSigner>) -> (r: Result<
        MultisigAggregatedSignature,
        CodecError,
    >)
        ensures
            r is Ok <==> ascending_below(
                signer_positions(signers_view(signers@)),
                committee@.members.len() as int,
            ),
            r matches Ok(a) ==> a@ == (MultisigView {
                signers: signers_view(signers@),
                committee: committee@,
            }),
            r matches Err(e) ==> e == CodecError::InvalidMemberIndex,
    {
        let count = committee.members().len();
        let ghost ps = signer_positions(signers_view(signers@));
        let mut i: usize = 0;
        while i < signers.len()
            invariant
                i <= signers@.len(),
                count == committee@.members.len(),
                ps == signer_positions(signers_view(signers@)),
                ascending_below(ps.take(i as int), count as int),
            decreases signers@.len() - i,
        {
            let position = signers[i].position;
            assert(ps[i as int] == position);
            if position as usize >= count {
                return Err(CodecError::InvalidMemberIndex);
            }
            if i > 0 && signers[i - 1].position >= position {
                assert(ps[i - 1] >= ps[i as int]);
                return Err(CodecError::InvalidMemberIndex);
            }
            proof {
                let next = ps.take(i + 1);
                let old_take = ps.take(i as int);
                assert forall|a: int, b: int| 0 <= a < b < next.len() implies next[a] < next[b] by {
                    if b < i {
                        assert(old_take[a] == next[a] && old_take[b] == next[b]);
                    } else if a < i - 1 {
                        assert(old_take[a] < old_take[i - 1]);
                    }
                }
                assert forall|a: int| 0 <= a < next.len() implies (#[trigger] next[a]) < count by {
                    if a < i {
                        assert(old_take[a] == next[a]);
                    }
                }
            }
            i += 1;
        }
        assert(ps.take(signers@.len() as int) =~= ps);
        let mut k: usize = 0;
        while k < signers.len()
            invariant
                k <= signers@.len(),
                forall|j: int| 0 <= j < k ==> member_signature_wf(#[trigger] signers@[j]@.signature),
            decreases signers@.len() - k,
        {
            let _ = signers[k].signature.scheme();
            k += 1;
        }
        Ok(MultisigAggregatedSignature { signers, committee })
    }

    /// The aggregate that a bitmap and a list of signatures stand for: the
    /// `k`-th signature is that of the member at the `k`-th set bit of the
    /// bitmap, counted from the lowest.
    ///
    /// There must be as many signatures as bits that are set, and every bit
    /// that is set must name a member; otherwise the bitmap names a member
    /// that is not there.
    pub fn from_bitmap(
        committee: MultisigCommittee,
        bitmap: u16,
        signatures: Vec<MultisigMemberSignature>,
    ) -> (r: Result<MultisigAggregatedSignature, CodecError>)
        ensures
            r is Ok <==> population(bitmap) == signatures@.len() && ascending_below(
                positions(bitmap),
                committee@.members.len() as int,
            ),
            r matches Ok(a) ==> a@ == (MultisigView {
                signers: pair_signers(positions(bitmap), signatures_view(signatures@)),
                committee: committee@,
            }),
            r matches Err(e) ==> e == CodecError::InvalidMemberIndex,
    {
        let ps = positions_of(bitmap);
        if ps.len() != signatures.len() {
            return Err(CodecError::InvalidMemberIndex);
        }
        let signers = pair_up(&ps, &signatures);
        MultisigAggregatedSignature::new(committee, signers)
    }

    /// The signers, in ascending order of position.
    pub fn signers(&self) -> (signers: &Vec<MultisigSigner>)
        ensures
            signers_view(signers@) == self@.signers,
            multisig_wf(self@),
    {
        proof {
            use_type_invariant(self);
        }
        &self.signers
    }

    /// The committee.
    pub fn committee(&self) -> (committee: &MultisigCommittee)
        ensures
            committee@ == self@.committee,
    {
        &self.committee
    }

    /// The bitmap of the signers' positions: bit `i` is set exactly if the
    /// member at position `i` signed.
    pub fn bitmap(&self) -> (bitmap: u16)
        ensures
            bitmap == bitmap_of(signer_positions(self@.signers)),
            positions(bitmap) == signer_positions(self@.signers),
            population(bitmap) == self@.signers.len(),
    {
        proof {
            use_type_invariant(self);
            use_type_invariant(&self.committee);
        }
        let ps = self.positions();
        proof {
            lemma_positions_of_bitmap(ps@);
        }
        bitmap_from(ps.as_slice())
    }

    /// The signers' positions, in ascending order.
    fn positions(&self) -> (ps: Vec<u8>)
        ensures
            ps@ == signer_positions(self@.signers),
            ascending_below(ps@, 16),
            ps@.len() <= 16,
    {
        proof {
            use_type_invariant(self);
            use_type_invariant(&self.committee);
        }
        let mut ps: Vec<u8> = Vec::new();
        let mut i: usize = 0;
        while i < self.signers.len()
            invariant
                i <= self.signers@.len(),
                ps@.len() == i,
                forall|k: int| 0 <= k < i ==> ps@[k] == self.signers@[k].position,
            decreases self.signers@.len() - i,
        {
            ps.push(self.signers[i].position);
            i += 1;
        }
        proof {
            assert(ps@ =~= signer_positions(self@.signers));
            lemma_ascending_length(ps@, 16);
        }
        ps
    }

    /// The weight that the aggregate carries: the sum of the weights of the
    /// members that signed.
    pub fn signed_weight(&self) -> (weight: u16)
        ensures
            weight == signed_weight_of(self@),
    {
        proof {
            use_type_invariant(self);
            use_type_invariant(&self.committee);
        }
        let ps = self.positions();
        let members = self.committee.members();
        let ghost all = self@.committee.members;
        let mut weight: u16 = 0;
        let mut i: usize = 0;
        while i < ps.len()
            invariant
                i <= ps@.len() <= 16,
                all == members_view(members@),
                forall|k: int| 0 <= k < ps@.len() ==> (#[trigger] ps@[k]) < members@.len(),
                weight == weight_at(all, ps@.take(i as int)),
                weight <= 255 * i,
            decreases ps@.len() - i,
        {
            proof {
                assert(ps@.take(i + 1).drop_last() =~= ps@.take(i as int));
                assert(ps@.take(i + 1).last() == ps@[i as int]);
            }
            let member = &members[ps[i] as usize];
            weight = weight + member.weight() as u16;
            i += 1;
        }
        assert(ps@.take(ps@.len() as int) =~= ps@);
        weight
    }

    /// Whether the aggregate speaks for its committee: whether the weight
    /// that it carries reaches the threshold.
    pub fn is_authoritative(&self) -> (yes: bool)
        ensures
            yes == authoritative(self@),
    {
        self.signed_weight() >= self.committee.threshold()
    }

    /// The compact form.
    pub fn encode_compact(&self) -> (bytes: Vec<u8>)
        ensures
            multisig_wf(self@),
            bytes@ == multisig_bytes(self@),
            parse_multisig(bytes@) == Ok::<MultisigView, CodecError>(self@),
    {
        proof {
            use_type_invariant(self);
            lemma_multisig_round_trip(self@);
        }
        let mut out: Vec<u8> = Vec::new();
        out.push(SchemeTag::Multisig.as_byte());
        push_u16_le(&mut out, self.bitmap());
        let count = self.signers.len();
        proof {
            lemma_ascending_length(signer_positions(self@.signers), 16);
        }
        out.push(count as u8);
        let ghost start = out@;
        let ghost all = signer_signatures(self@.signers);
        let mut i: usize = 0;
        while i < count
            invariant
                count == self.signers@.len(),
                i <= count,
                all == signer_signatures(signers_view(self.signers@)),
                out@ == start + signatures_bytes(all.take(i as int)),
            decreases count - i,
        {
            proof {
                assert(all.take(i + 1).drop_last() =~= all.take(i as int));
                assert(all.take(i + 1).last() == self.signers@[i as int]@.signature);
            }
            self.signers[i].signature.write(&mut out);
            i += 1;
            assert(out@ =~= start + signatures_bytes(all.take(i as int)));
        }
        assert(all.take(count as int) =~= all);
        self.committee.write(&mut out);
        assert(out@ =~= multisig_bytes(self@));
        out
    }

    /// Reads the compact form. Nothing may follow the committee.
    pub fn decode_compact(bytes: &[u8]) -> (r: Result<MultisigAggregatedSignature, CodecError>)
        ensures
            match parse_multisig(bytes@) {
                Ok(v) => r is Ok && r.unwrap()@ == v && multisig_bytes(v) == bytes@,
                Err(e) => r == Err::<MultisigAggregatedSignature, CodecError>(e),
            },
    {
        proof {
            if parse_multisig(bytes@) is Ok {
                lemma_multisig_canonical(bytes@);
            }
        }
        let len = bytes.len();
        if len == 0 {
            return Err(CodecError::TruncatedInput);
        }
        let scheme = match SchemeTag::from_byte(bytes[0]) {
            Ok(scheme) => scheme,
            Err(e) => {
                return Err(e);
            },
        };
        match scheme {
            SchemeTag::Multisig => {},
            _ => {
                return Err(CodecError::SchemeMismatch);
            },
        }
        if len < 4 {
            return Err(CodecError::TruncatedInput);
        }
        let bitmap = read_u16_le(bytes[1], bytes[2]);
        let ps = positions_of(bitmap);
        let count = bytes[3] as usize;
        if ps.len() != count {
            return Err(CodecError::InvalidMemberIndex);
        }
        let ghost list = bytes@.skip(4);
        let mut signatures: Vec<MultisigMemberSignature> = Vec::new();
        let mut at: usize = 4;
        let mut i: usize = 0;
        assert(signatures_view(signatures@) =~= Seq::<MemberSignatureView>::empty());
        while i < count
            invariant
                i <= count,
                4 <= at <= bytes@.len(),
                SchemeTag::of_byte(bytes@[0]) == Some(SchemeTag::Multisig),
                bytes@[3] == count,
                population(u16_of_le(bytes@[1], bytes@[2])) == count,
                list == bytes@.skip(4),
                parse_signatures(list, i as nat) == Ok::<
                    (Seq<MemberSignatureView>, int),
                    CodecError,
                >((signatures_view(signatures@), at - 4)),
                signatures@.len() == i,
            ensures
                i == count,
            decreases count - i,
        {
            assert(list.skip(at - 4) =~= bytes@.skip(at as int));
            let (signature, end) = match MultisigMemberSignature::read(bytes, at) {
                Ok(found) => found,
                Err(e) => {
                    proof {
                        lemma_parse_signatures_error(list, i as nat, count as nat);
                    }
                    return Err(e);
                },
            };
            let ghost before = signatures_view(signatures@);
            signatures.push(signature);
            assert(signatures_view(signatures@) =~= before.push(signature@));
            at = end;
            i += 1;
        }
        let (committee, end) = match MultisigCommittee::read(bytes, at) {
            Ok(found) => found,
            Err(e) => {
                return Err(e);
            },
        };
        if end < len {
            return Err(CodecError::TrailingData);
        }
        let members = committee.members().len();
        if !all_below(&ps, members) {
            return Err(CodecError::InvalidMemberIndex);
        }
        let signers = pair_up(&ps, &signatures);
        MultisigAggregatedSignature::new(committee, signers)
    }
}

} // verus!
