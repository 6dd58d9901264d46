use zklogin_auth::address_seed::AddressSeed;
use zklogin_auth::error::CodecError;
use zklogin_auth::keys::{
    Ed25519PublicKey, Ed25519Signature, Secp256k1PublicKey, Secp256k1Signature,
    Secp256r1PublicKey, Secp256r1Signature,
};
use zklogin_auth::multisig::{
    MultisigAggregatedSignature, MultisigCommittee, MultisigMember, MultisigMemberPublicKey,
    MultisigMemberSignature,
};
use zklogin_auth::scheme::SchemeTag;
use zklogin_auth::simple::SimpleSignature;
use zklogin_auth::user_signature::UserSignature;
use zklogin_auth::zklogin::{Claim, ZkLoginAuthenticator, ZkLoginInputs, ZkLoginProof};

fn simple_signatures() -> Vec<SimpleSignature> {
    vec![
        SimpleSignature::Ed25519 {
            signature: Ed25519Signature::new([1; 64]),
            public_key: Ed25519PublicKey::new([2; 32]),
        },
        SimpleSignature::Secp256k1 {
            signature: Secp256k1Signature::new([3; 64]),
            public_key: Secp256k1PublicKey::new([4; 33]),
        },
        SimpleSignature::Secp256r1 {
            signature: Secp256r1Signature::new([5; 64]),
            public_key: Secp256r1PublicKey::new([6; 33]),
        },
    ]
}

fn multisig() -> MultisigAggregatedSignature {
    let members = vec![
        MultisigMember::new(MultisigMemberPublicKey::Ed25519(Ed25519PublicKey::new([1; 32])), 1)
            .unwrap(),
        MultisigMember::new(MultisigMemberPublicKey::Ed25519(Ed25519PublicKey::new([2; 32])), 1)
            .unwrap(),
        MultisigMember::new(MultisigMemberPublicKey::Ed25519(Ed25519PublicKey::new([3; 32])), 2)
            .unwrap(),
    ];
    let committee = MultisigCommittee::new(members, 2).unwrap();
    MultisigAggregatedSignature::from_bitmap(
        committee,
        0b101,
        vec![
            MultisigMemberSignature::Ed25519(Ed25519Signature::new([7; 64])),
            MultisigMemberSignature::Ed25519(Ed25519Signature::new([8; 64])),
        ],
    )
    .unwrap()
}

fn zklogin() -> ZkLoginAuthenticator {
    let one = |s: &str| vec![s.to_owned()];
    let inputs = ZkLoginInputs::new(
        ZkLoginProof::new(one("1"), vec![one("2")], one("3")),
        Claim::new("claim".to_owned(), 1).unwrap(),
        "header".to_owned(),
        AddressSeed::new([9; 32]),
    );
    ZkLoginAuthenticator::new(inputs, 42, simple_signatures()[0])
}

fn all_variants() -> Vec<UserSignature> {
    let mut all: Vec<UserSignature> =
        simple_signatures().into_iter().map(UserSignature::Simple).collect();
    all.push(UserSignature::Multisig(multisig()));
    all.push(UserSignature::ZkLogin(Box::new(zklogin())));
    all
}

#[test]
fn envelope_round_trip_and_tag() {
    for value in all_variants() {
        let bytes = value.encode_compact().unwrap();
        assert_eq!(bytes[0], value.scheme().as_byte());
        let back = UserSignature::decode_compact(&bytes).unwrap();
        assert_eq!(back, value);
        assert_eq!(back.scheme(), value.scheme());
        assert_eq!(back.encode_compact().unwrap(), bytes);
    }
}

#[test]
fn envelope_schemes() {
    let all = all_variants();
    assert_eq!(all[0].scheme(), SchemeTag::Ed25519);
    assert_eq!(all[1].scheme(), SchemeTag::Secp256k1);
    assert_eq!(all[2].scheme(), SchemeTag::Secp256r1);
    assert_eq!(all[3].scheme(), SchemeTag::Multisig);
    assert_eq!(all[4].scheme(), SchemeTag::ZkLogin);
}

#[test]
fn envelope_is_the_variant_form() {
    assert_eq!(
        UserSignature::Simple(simple_signatures()[1]).encode_compact().unwrap(),
        simple_signatures()[1].encode_compact()
    );
    assert_eq!(
        UserSignature::Multisig(multisig()).encode_compact().unwrap(),
        multisig().encode_compact()
    );
    assert_eq!(
        UserSignature::ZkLogin(Box::new(zklogin())).encode_compact(),
        zklogin().encode_compact()
    );
}

#[test]
fn envelope_one_byte_of_overhead() {
    let bytes = UserSignature::Simple(simple_signatures()[0]).encode_compact().unwrap();
    assert_eq!(bytes.len(), 1 + 64 + 32);
}

#[test]
fn envelope_rejects_unknown_and_foreign_tags() {
    assert_eq!(UserSignature::decode_compact(&[]), Err(CodecError::TruncatedInput));
    assert_eq!(UserSignature::decode_compact(&[6]), Err(CodecError::UnknownScheme));
    assert_eq!(UserSignature::decode_compact(&[0xff, 1, 2]), Err(CodecError::UnknownScheme));
    assert_eq!(UserSignature::decode_compact(&[4]), Err(CodecError::SchemeMismatch));
    let mut bytes = vec![4u8];
    bytes.extend_from_slice(&[0; 144]);
    assert_eq!(UserSignature::decode_compact(&bytes), Err(CodecError::SchemeMismatch));
}

#[test]
fn envelope_trailing_data() {
    for value in all_variants() {
        let mut bytes = value.encode_compact().unwrap();
        bytes.push(0);
        assert_eq!(UserSignature::decode_compact(&bytes), Err(CodecError::TrailingData));
    }
}

#[test]
fn envelope_truncated() {
    for value in all_variants() {
        let mut bytes = value.encode_compact().unwrap();
        bytes.pop();
        assert_eq!(UserSignature::decode_compact(&bytes), Err(CodecError::TruncatedInput));
        assert_eq!(UserSignature::decode_compact(&bytes[..1]), Err(CodecError::TruncatedInput));
    }
}

#[test]
fn envelope_variant_follows_the_first_byte() {
    let simple = UserSignature::Simple(simple_signatures()[0]).encode_compact().unwrap();
    let mut bytes = simple.clone();
    bytes[0] = 3;
    assert!(!matches!(UserSignature::decode_compact(&bytes), Ok(UserSignature::Simple(_))));
    bytes[0] = 5;
    assert!(UserSignature::decode_compact(&bytes).is_err());
    assert!(matches!(UserSignature::decode_compact(&simple), Ok(UserSignature::Simple(_))));
}
