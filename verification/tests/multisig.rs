use zklogin_auth::address_seed::AddressSeed;
use zklogin_auth::bitmap::{bitmap_from, positions_of};
use zklogin_auth::error::CodecError;
use zklogin_auth::identifier::ZkLoginPublicIdentifier;
use zklogin_auth::keys::{
    Ed25519PublicKey, Ed25519Signature, Secp256k1PublicKey, Secp256k1Signature,
    Secp256r1PublicKey, Secp256r1Signature,
};
use zklogin_auth::multisig::{
    MultisigAggregatedSignature, MultisigCommittee, MultisigMember, MultisigMemberPublicKey,
    MultisigMemberSignature, MultisigSigner,
};
use zklogin_auth::scheme::SchemeTag;

fn member(n: u8, weight: u8) -> MultisigMember {
    MultisigMember::new(MultisigMemberPublicKey::Ed25519(Ed25519PublicKey::new([n; 32])), weight)
        .unwrap()
}

fn sig(n: u8) -> MultisigMemberSignature {
    MultisigMemberSignature::Ed25519(Ed25519Signature::new([n; 64]))
}

fn committee_112() -> MultisigCommittee {
    MultisigCommittee::new(vec![member(10, 1), member(11, 1), member(12, 2)], 2).unwrap()
}

#[test]
fn bitmap_positions() {
    assert_eq!(positions_of(0), Vec::<u8>::new());
    assert_eq!(positions_of(0b101), vec![0, 2]);
    assert_eq!(positions_of(0x8000), vec![15]);
    assert_eq!(positions_of(0xffff), (0..16).collect::<Vec<u8>>());
    assert_eq!(bitmap_from(&[0, 2]), 0b101);
    assert_eq!(bitmap_from(&[]), 0);
    assert_eq!(bitmap_from(&[15]), 0x8000);
    for bitmap in [0u16, 1, 2, 0b1010, 0x1234, 0xfffe, 0xffff] {
        assert_eq!(bitmap_from(&positions_of(bitmap)), bitmap);
    }
}

#[test]
fn member_weight_is_positive() {
    let key = MultisigMemberPublicKey::Ed25519(Ed25519PublicKey::new([1; 32]));
    assert!(MultisigMember::new(key.clone(), 0).is_none());
    let m = MultisigMember::new(key.clone(), 1).unwrap();
    assert_eq!(m.weight(), 1);
    assert_eq!(m.public_key(), &key);
    assert_eq!(MultisigMember::new(key, 255).unwrap().weight(), 255);
}

#[test]
fn committee_has_at_most_sixteen_members() {
    let members: Vec<MultisigMember> = (0..16).map(|n| member(n, 1)).collect();
    let c = MultisigCommittee::new(members, 3).unwrap();
    assert_eq!(c.members().len(), 16);
    assert_eq!(c.threshold(), 3);
    let members: Vec<MultisigMember> = (0..17).map(|n| member(n, 1)).collect();
    assert!(MultisigCommittee::new(members, 3).is_none());
    assert_eq!(MultisigCommittee::new(vec![], 0).unwrap().members().len(), 0);
}

#[test]
fn bitmap_and_signatures_correspond() {
    let a = MultisigAggregatedSignature::from_bitmap(committee_112(), 0b101, vec![sig(1), sig(2)])
        .unwrap();
    assert_eq!(a.signers().len(), 2);
    assert_eq!(a.signers()[0], MultisigSigner { position: 0, signature: sig(1) });
    assert_eq!(a.signers()[1], MultisigSigner { position: 2, signature: sig(2) });
    assert_eq!(a.bitmap(), 0b101);
    assert_eq!(a.committee(), &committee_112());
    assert_eq!(a.signed_weight(), 3);
    assert!(a.is_authoritative());
}

#[test]
fn signature_count_must_match_population() {
    for signatures in [vec![], vec![sig(1)], vec![sig(1), sig(2), sig(3)]] {
        assert_eq!(
            MultisigAggregatedSignature::from_bitmap(committee_112(), 0b101, signatures),
            Err(CodecError::InvalidMemberIndex)
        );
    }
}

#[test]
fn bitmap_must_name_members() {
    assert_eq!(
        MultisigAggregatedSignature::from_bitmap(committee_112(), 0b1000, vec![sig(1)]),
        Err(CodecError::InvalidMemberIndex)
    );
    assert_eq!(
        MultisigAggregatedSignature::from_bitmap(committee_112(), 0x8001, vec![sig(1), sig(2)]),
        Err(CodecError::InvalidMemberIndex)
    );
    assert!(MultisigAggregatedSignature::from_bitmap(committee_112(), 0b100, vec![sig(1)]).is_ok());
}

#[test]
fn signers_must_ascend() {
    let s = |position, n| MultisigSigner { position, signature: sig(n) };
    assert!(MultisigAggregatedSignature::new(committee_112(), vec![s(0, 1), s(2, 2)]).is_ok());
    assert!(MultisigAggregatedSignature::new(committee_112(), vec![]).is_ok());
    assert_eq!(
        MultisigAggregatedSignature::new(committee_112(), vec![s(2, 1), s(0, 2)]),
        Err(CodecError::InvalidMemberIndex)
    );
    assert_eq!(
        MultisigAggregatedSignature::new(committee_112(), vec![s(1, 1), s(1, 2)]),
        Err(CodecError::InvalidMemberIndex)
    );
    assert_eq!(
        MultisigAggregatedSignature::new(committee_112(), vec![s(3, 1)]),
        Err(CodecError::InvalidMemberIndex)
    );
}

#[test]
fn threshold_is_checked_only_on_request() {
    let weak = MultisigAggregatedSignature::from_bitmap(committee_112(), 0b001, vec![sig(1)])
        .unwrap();
    assert_eq!(weak.signed_weight(), 1);
    assert!(!weak.is_authoritative());
    let back = MultisigAggregatedSignature::decode_compact(&weak.encode_compact()).unwrap();
    assert_eq!(back, weak);
    assert!(!back.is_authoritative());

    let exact = MultisigAggregatedSignature::from_bitmap(committee_112(), 0b100, vec![sig(1)])
        .unwrap();
    assert_eq!(exact.signed_weight(), 2);
    assert!(exact.is_authoritative());

    let both = MultisigAggregatedSignature::from_bitmap(committee_112(), 0b011, vec![sig(1), sig(2)])
        .unwrap();
    assert_eq!(both.signed_weight(), 2);
    assert!(both.is_authoritative());

    let none = MultisigAggregatedSignature::from_bitmap(committee_112(), 0, vec![]).unwrap();
    assert_eq!(none.signed_weight(), 0);
    assert!(!none.is_authoritative());
}

#[test]
fn largest_weight_does_not_overflow() {
    let members: Vec<MultisigMember> = (0..16).map(|n| member(n, 255)).collect();
    let c = MultisigCommittee::new(members, 4080).unwrap();
    let all = MultisigAggregatedSignature::from_bitmap(c.clone(), 0xffff, (0..16).map(sig).collect())
        .unwrap();
    assert_eq!(all.signed_weight(), 4080);
    assert!(all.is_authoritative());
    let most =
        MultisigAggregatedSignature::from_bitmap(c, 0x7fff, (0..15).map(sig).collect()).unwrap();
    assert_eq!(most.signed_weight(), 3825);
    assert!(!most.is_authoritative());
}

fn expected_layout() -> Vec<u8> {
    let mut out = vec![0x03];
    out.extend_from_slice(&[0b101, 0x00]);
    out.push(2);
    out.push(0x00);
    out.extend_from_slice(&[1; 64]);
    out.push(0x00);
    out.extend_from_slice(&[2; 64]);
    out.push(3);
    for (n, weight) in [(10u8, 1u8), (11, 1), (12, 2)] {
        out.push(0x00);
        out.extend_from_slice(&[n; 32]);
        out.push(weight);
    }
    out.extend_from_slice(&[2, 0]);
    out
}

#[test]
fn multisig_compact_layout() {
    let a = MultisigAggregatedSignature::from_bitmap(committee_112(), 0b101, vec![sig(1), sig(2)])
        .unwrap();
    assert_eq!(a.encode_compact(), expected_layout());
}

#[test]
fn multisig_round_trip() {
    let a = MultisigAggregatedSignature::from_bitmap(committee_112(), 0b101, vec![sig(1), sig(2)])
        .unwrap();
    let back = MultisigAggregatedSignature::decode_compact(&a.encode_compact()).unwrap();
    assert_eq!(back, a);
    assert_eq!(back.signers()[0].position, 0);
    assert_eq!(back.signers()[1].position, 2);
    assert_eq!(back.signers()[0].signature, sig(1));
    assert_eq!(back.signers()[1].signature, sig(2));
}

#[test]
fn multisig_round_trip_mixed_schemes() {
    let id = ZkLoginPublicIdentifier::new(
        "https://accounts.example.com".to_owned(),
        AddressSeed::new([5; 32]),
    )
    .unwrap();
    let members = vec![
        MultisigMember::new(MultisigMemberPublicKey::Ed25519(Ed25519PublicKey::new([1; 32])), 1)
            .unwrap(),
        MultisigMember::new(MultisigMemberPublicKey::ZkLogin(id), 7).unwrap(),
        MultisigMember::new(
            MultisigMemberPublicKey::Secp256k1(Secp256k1PublicKey::new([2; 33])),
            2,
        )
        .unwrap(),
        MultisigMember::new(
            MultisigMemberPublicKey::Secp256r1(Secp256r1PublicKey::new([3; 33])),
            3,
        )
        .unwrap(),
    ];
    let c = MultisigCommittee::new(members, 0x0102).unwrap();
    let signatures = vec![
        MultisigMemberSignature::Ed25519(Ed25519Signature::new([4; 64])),
        MultisigMemberSignature::Secp256k1(Secp256k1Signature::new([5; 64])),
        MultisigMemberSignature::Secp256r1(Secp256r1Signature::new([6; 64])),
    ];
    let a = MultisigAggregatedSignature::from_bitmap(c, 0b1101, signatures).unwrap();
    assert_eq!(a.signed_weight(), 6);
    assert!(!a.is_authoritative());
    let bytes = a.encode_compact();
    let n = bytes.len();
    assert_eq!(&bytes[n - 2..], &[0x02, 0x01]);
    let back = MultisigAggregatedSignature::decode_compact(&bytes).unwrap();
    assert_eq!(back, a);
    assert_eq!(back.committee().members()[1].public_key().scheme(), SchemeTag::ZkLogin);
    assert_eq!(back.committee().threshold(), 0x0102);
    assert_eq!(back.clone(), a);
}

#[test]
fn multisig_decode_population_mismatch() {
    let mut bytes = expected_layout();
    bytes[1] = 0b111;
    assert_eq!(
        MultisigAggregatedSignature::decode_compact(&bytes),
        Err(CodecError::InvalidMemberIndex)
    );
    let mut bytes = expected_layout();
    bytes[1] = 0b001;
    assert_eq!(
        MultisigAggregatedSignature::decode_compact(&bytes),
        Err(CodecError::InvalidMemberIndex)
    );
    let mut bytes = expected_layout();
    bytes[3] = 3;
    assert_eq!(
        MultisigAggregatedSignature::decode_compact(&bytes),
        Err(CodecError::InvalidMemberIndex)
    );
}

#[test]
fn multisig_decode_bit_outside_committee() {
    let mut bytes = expected_layout();
    bytes[1] = 0b1001;
    assert_eq!(
        MultisigAggregatedSignature::decode_compact(&bytes),
        Err(CodecError::InvalidMemberIndex)
    );
    let mut bytes = expected_layout();
    bytes[1] = 0b001;
    bytes[2] = 0x80;
    assert_eq!(
        MultisigAggregatedSignature::decode_compact(&bytes),
        Err(CodecError::InvalidMemberIndex)
    );
}

#[test]
fn multisig_decode_tag() {
    let mut bytes = expected_layout();
    bytes[0] = 5;
    assert_eq!(
        MultisigAggregatedSignature::decode_compact(&bytes),
        Err(CodecError::SchemeMismatch)
    );
    bytes[0] = 0;
    assert_eq!(
        MultisigAggregatedSignature::decode_compact(&bytes),
        Err(CodecError::SchemeMismatch)
    );
    bytes[0] = 200;
    assert_eq!(
        MultisigAggregatedSignature::decode_compact(&bytes),
        Err(CodecError::UnknownScheme)
    );
    assert_eq!(MultisigAggregatedSignature::decode_compact(&[]), Err(CodecError::TruncatedInput));
}

#[test]
fn multisig_decode_truncated_anywhere() {
    let bytes = expected_layout();
    for cut in 1..bytes.len() {
        assert_eq!(
            MultisigAggregatedSignature::decode_compact(&bytes[..cut]),
            Err(CodecError::TruncatedInput),
            "cut at {}",
            cut
        );
    }
}

#[test]
fn multisig_decode_trailing_data() {
    let mut bytes = expected_layout();
    bytes.push(0);
    assert_eq!(
        MultisigAggregatedSignature::decode_compact(&bytes),
        Err(CodecError::TrailingData)
    );
}

#[test]
fn multisig_decode_member_errors() {
    let base = expected_layout();
    let members_at = 4 + 65 + 65;
    assert_eq!(base[members_at], 3);

    let mut bytes = base.clone();
    bytes[members_at] = 17;
    assert_eq!(
        MultisigAggregatedSignature::decode_compact(&bytes),
        Err(CodecError::InvalidMemberIndex)
    );

    let mut bytes = base.clone();
    bytes[members_at + 1] = 4;
    assert_eq!(
        MultisigAggregatedSignature::decode_compact(&bytes),
        Err(CodecError::SchemeMismatch)
    );

    let mut bytes = base.clone();
    bytes[members_at + 1] = 99;
    assert_eq!(
        MultisigAggregatedSignature::decode_compact(&bytes),
        Err(CodecError::UnknownScheme)
    );

    let mut bytes = base.clone();
    bytes[members_at + 1 + 33] = 0;
    assert_eq!(
        MultisigAggregatedSignature::decode_compact(&bytes),
        Err(CodecError::MalformedInteger)
    );

    let mut bytes = base;
    bytes[4] = 5;
    assert_eq!(
        MultisigAggregatedSignature::decode_compact(&bytes),
        Err(CodecError::SchemeMismatch)
    );
}

#[test]
fn multisig_decode_zklogin_member_text() {
    let id = ZkLoginPublicIdentifier::new("ab".to_owned(), AddressSeed::new([5; 32])).unwrap();
    let c = MultisigCommittee::new(
        vec![MultisigMember::new(MultisigMemberPublicKey::ZkLogin(id), 1).unwrap()],
        1,
    )
    .unwrap();
    let a = MultisigAggregatedSignature::from_bitmap(c, 0, vec![]).unwrap();
    let mut bytes = a.encode_compact();
    assert_eq!(&bytes[..8], &[3, 0, 0, 0, 1, 5, 2, b'a']);
    bytes[7] = 0xff;
    assert_eq!(
        MultisigAggregatedSignature::decode_compact(&bytes),
        Err(CodecError::InvalidUtf8)
    );
}
