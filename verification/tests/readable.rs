use zklogin_auth::address_seed::AddressSeed;
use zklogin_auth::error::CodecError;
use zklogin_auth::identifier::ZkLoginPublicIdentifier;
use zklogin_auth::keys::{
    Ed25519PublicKey, Ed25519Signature, Secp256k1PublicKey, Secp256k1Signature,
    Secp256r1PublicKey, Secp256r1Signature,
};
use zklogin_auth::multisig::{
    MultisigAggregatedSignature, MultisigCommittee, MultisigMember, MultisigMemberPublicKey,
    MultisigMemberSignature,
};
use zklogin_auth::readable::{
    ReadableBody, ReadableIdentifier, ReadableKeyBody, ReadableMemberKey, ReadableSimpleSignature,
    ReadableUserSignature,
};
use zklogin_auth::scheme::SchemeTag;
use zklogin_auth::simple::SimpleSignature;
use zklogin_auth::user_signature::UserSignature;
use zklogin_auth::zklogin::{Claim, ZkLoginAuthenticator, ZkLoginInputs, ZkLoginProof};

fn ed25519() -> SimpleSignature {
    SimpleSignature::Ed25519 {
        signature: Ed25519Signature::new([1; 64]),
        public_key: Ed25519PublicKey::new([2; 32]),
    }
}

fn identifier() -> ZkLoginPublicIdentifier {
    ZkLoginPublicIdentifier::new(
        "https://accounts.example.com".to_owned(),
        AddressSeed::from_decimal_string("65536").unwrap(),
    )
    .unwrap()
}

fn multisig() -> MultisigAggregatedSignature {
    let members = vec![
        MultisigMember::new(MultisigMemberPublicKey::Ed25519(Ed25519PublicKey::new([1; 32])), 1)
            .unwrap(),
        MultisigMember::new(MultisigMemberPublicKey::ZkLogin(identifier()), 1).unwrap(),
        MultisigMember::new(
            MultisigMemberPublicKey::Secp256k1(Secp256k1PublicKey::new([3; 33])),
            2,
        )
        .unwrap(),
        MultisigMember::new(
            MultisigMemberPublicKey::Secp256r1(Secp256r1PublicKey::new([4; 33])),
            2,
        )
        .unwrap(),
    ];
    let committee = MultisigCommittee::new(members, 3).unwrap();
    MultisigAggregatedSignature::from_bitmap(
        committee,
        0b1101,
        vec![
            MultisigMemberSignature::Ed25519(Ed25519Signature::new([7; 64])),
            MultisigMemberSignature::Secp256k1(Secp256k1Signature::new([8; 64])),
            MultisigMemberSignature::Secp256r1(Secp256r1Signature::new([9; 64])),
        ],
    )
    .unwrap()
}

fn zklogin() -> ZkLoginAuthenticator {
    let one = |s: &str| vec![s.to_owned()];
    let inputs = ZkLoginInputs::new(
        ZkLoginProof::new(one("1"), vec![one("2"), one("3")], one("4")),
        Claim::new("claim".to_owned(), 3).unwrap(),
        "header".to_owned(),
        AddressSeed::from_decimal_string("1234567890123456789012345678901234567890").unwrap(),
    );
    ZkLoginAuthenticator::new(inputs, 42, ed25519())
}

fn all_variants() -> Vec<UserSignature> {
    vec![
        UserSignature::Simple(ed25519()),
        UserSignature::Simple(SimpleSignature::Secp256k1 {
            signature: Secp256k1Signature::new([3; 64]),
            public_key: Secp256k1PublicKey::new([4; 33]),
        }),
        UserSignature::Simple(SimpleSignature::Secp256r1 {
            signature: Secp256r1Signature::new([5; 64]),
            public_key: Secp256r1PublicKey::new([6; 33]),
        }),
        UserSignature::Multisig(multisig()),
        UserSignature::ZkLogin(Box::new(zklogin())),
    ]
}

#[test]
fn scheme_names() {
    assert_eq!(SchemeTag::Ed25519.name(), "ed25519");
    assert_eq!(SchemeTag::Secp256k1.name(), "secp256k1");
    assert_eq!(SchemeTag::Secp256r1.name(), "secp256r1");
    assert_eq!(SchemeTag::Multisig.name(), "multisig");
    assert_eq!(SchemeTag::Bls12381.name(), "bls12381");
    assert_eq!(SchemeTag::ZkLogin.name(), "zklogin");
    for tag in [
        SchemeTag::Ed25519,
        SchemeTag::Secp256k1,
        SchemeTag::Secp256r1,
        SchemeTag::Multisig,
        SchemeTag::Bls12381,
        SchemeTag::ZkLogin,
    ] {
        assert_eq!(SchemeTag::from_name(tag.name()), Ok(tag));
    }
    assert_eq!(SchemeTag::from_name(""), Err(CodecError::UnknownScheme));
    assert_eq!(SchemeTag::from_name("ED25519"), Err(CodecError::UnknownScheme));
    assert_eq!(SchemeTag::from_name("0"), Err(CodecError::UnknownScheme));
}

#[test]
fn identifier_readable_form() {
    let r = identifier().encode_readable();
    assert_eq!(
        r,
        ReadableIdentifier {
            iss: "https://accounts.example.com".to_owned(),
            address_seed: "65536".to_owned()
        }
    );
    assert_eq!(ZkLoginPublicIdentifier::decode_readable(&r).unwrap(), identifier());
}

#[test]
fn identifier_readable_errors() {
    let mut r = identifier().encode_readable();
    r.address_seed = "12x3".to_owned();
    assert_eq!(ZkLoginPublicIdentifier::decode_readable(&r), Err(CodecError::MalformedInteger));
    r.address_seed = String::new();
    assert_eq!(ZkLoginPublicIdentifier::decode_readable(&r), Err(CodecError::MalformedInteger));
    r.address_seed =
        "115792089237316195423570985008687907853269984665640564039457584007913129639936".to_owned();
    assert_eq!(ZkLoginPublicIdentifier::decode_readable(&r), Err(CodecError::MalformedInteger));
    r.address_seed = "0065536".to_owned();
    assert_eq!(ZkLoginPublicIdentifier::decode_readable(&r).unwrap(), identifier());
    r.iss = "a".repeat(256);
    assert_eq!(ZkLoginPublicIdentifier::decode_readable(&r), Err(CodecError::MalformedInteger));
}

#[test]
fn simple_readable_form() {
    let r = ed25519().encode_readable();
    assert_eq!(
        r,
        ReadableSimpleSignature {
            scheme: "ed25519".to_owned(),
            signature: vec![1; 64],
            public_key: vec![2; 32]
        }
    );
    assert_eq!(SimpleSignature::decode_readable(&r).unwrap(), ed25519());
}

#[test]
fn simple_readable_errors() {
    let good = ed25519().encode_readable();
    let mut r = good.clone();
    r.scheme = "rsa".to_owned();
    assert_eq!(SimpleSignature::decode_readable(&r), Err(CodecError::UnknownScheme));
    r.scheme = "multisig".to_owned();
    assert_eq!(SimpleSignature::decode_readable(&r), Err(CodecError::SchemeMismatch));
    r.scheme = "bls12381".to_owned();
    assert_eq!(SimpleSignature::decode_readable(&r), Err(CodecError::SchemeMismatch));
    r.scheme = "secp256k1".to_owned();
    assert_eq!(SimpleSignature::decode_readable(&r), Err(CodecError::TruncatedInput));
    let mut r = good.clone();
    r.signature.pop();
    assert_eq!(SimpleSignature::decode_readable(&r), Err(CodecError::TruncatedInput));
    let mut r = good.clone();
    r.public_key.push(0);
    assert_eq!(SimpleSignature::decode_readable(&r), Err(CodecError::TrailingData));
    let mut r = good;
    r.signature.push(0);
    r.public_key.pop();
    assert_eq!(SimpleSignature::decode_readable(&r), Err(CodecError::TruncatedInput));
}

#[test]
fn authenticator_readable_form() {
    let r = zklogin().encode_readable();
    assert_eq!(r.max_epoch, 42);
    assert_eq!(r.inputs.address_seed, "1234567890123456789012345678901234567890");
    assert_eq!(r.inputs.header_base64, "header");
    assert_eq!(r.inputs.iss_base64_details.value, "claim");
    assert_eq!(r.inputs.iss_base64_details.index_mod_4, 3);
    assert_eq!(r.inputs.proof_points.a, vec!["1".to_owned()]);
    assert_eq!(r.inputs.proof_points.b, vec![vec!["2".to_owned()], vec!["3".to_owned()]]);
    assert_eq!(r.inputs.proof_points.c, vec!["4".to_owned()]);
    assert_eq!(r.signature.scheme, "ed25519");
    assert_eq!(ZkLoginAuthenticator::decode_readable(&r).unwrap(), zklogin());
}

#[test]
fn authenticator_readable_errors() {
    let good = zklogin().encode_readable();
    let mut r = good.clone();
    r.inputs.iss_base64_details.index_mod_4 = 4;
    assert_eq!(ZkLoginAuthenticator::decode_readable(&r), Err(CodecError::MalformedInteger));
    let mut r = good.clone();
    r.inputs.address_seed = "-1".to_owned();
    assert_eq!(ZkLoginAuthenticator::decode_readable(&r), Err(CodecError::MalformedInteger));
    let mut r = good;
    r.signature.scheme = "zklogin".to_owned();
    assert_eq!(ZkLoginAuthenticator::decode_readable(&r), Err(CodecError::SchemeMismatch));
}

#[test]
fn multisig_readable_form() {
    let r = multisig().encode_readable();
    assert_eq!(r.bitmap, 0b1101);
    assert_eq!(r.signatures.len(), 3);
    assert_eq!(r.signatures[1].scheme, "secp256k1");
    assert_eq!(r.signatures[1].signature, vec![8; 64]);
    assert_eq!(r.committee.threshold, 3);
    assert_eq!(r.committee.members.len(), 4);
    assert_eq!(
        r.committee.members[1].public_key,
        ReadableMemberKey {
            scheme: "zklogin".to_owned(),
            body: ReadableKeyBody::ZkLogin(identifier().encode_readable())
        }
    );
    assert_eq!(r.committee.members[2].public_key.body, ReadableKeyBody::Raw(vec![3; 33]));
    assert_eq!(r.committee.members[2].weight, 2);
    assert_eq!(MultisigAggregatedSignature::decode_readable(&r).unwrap(), multisig());
}

#[test]
fn multisig_readable_errors() {
    let good = multisig().encode_readable();

    let mut r = good.clone();
    r.bitmap = 0b0101;
    assert_eq!(
        MultisigAggregatedSignature::decode_readable(&r),
        Err(CodecError::InvalidMemberIndex)
    );
    let mut r = good.clone();
    r.bitmap = 0b11100;
    assert_eq!(
        MultisigAggregatedSignature::decode_readable(&r),
        Err(CodecError::InvalidMemberIndex)
    );
    let mut r = good.clone();
    r.signatures.pop();
    assert_eq!(
        MultisigAggregatedSignature::decode_readable(&r),
        Err(CodecError::InvalidMemberIndex)
    );
    let mut r = good.clone();
    r.signatures[0].scheme = "zklogin".to_owned();
    assert_eq!(
        MultisigAggregatedSignature::decode_readable(&r),
        Err(CodecError::SchemeMismatch)
    );
    let mut r = good.clone();
    r.signatures[2].signature.push(1);
    assert_eq!(MultisigAggregatedSignature::decode_readable(&r), Err(CodecError::TrailingData));
    let mut r = good.clone();
    r.committee.members[0].weight = 0;
    assert_eq!(
        MultisigAggregatedSignature::decode_readable(&r),
        Err(CodecError::MalformedInteger)
    );
    let mut r = good.clone();
    r.committee.members[0].public_key.scheme = "zklogin".to_owned();
    assert_eq!(
        MultisigAggregatedSignature::decode_readable(&r),
        Err(CodecError::SchemeMismatch)
    );
    let mut r = good.clone();
    r.committee.members[1].public_key.scheme = "ed25519".to_owned();
    assert_eq!(
        MultisigAggregatedSignature::decode_readable(&r),
        Err(CodecError::SchemeMismatch)
    );
    let mut r = good.clone();
    r.committee.members[3].public_key.body = ReadableKeyBody::Raw(vec![4; 32]);
    assert_eq!(
        MultisigAggregatedSignature::decode_readable(&r),
        Err(CodecError::TruncatedInput)
    );
    let mut r = good.clone();
    r.committee.members[0].public_key.scheme = "dilithium".to_owned();
    assert_eq!(
        MultisigAggregatedSignature::decode_readable(&r),
        Err(CodecError::UnknownScheme)
    );
    let mut r = good;
    let extra = r.committee.members[0].clone();
    while r.committee.members.len() < 17 {
        r.committee.members.push(extra.clone());
    }
    assert_eq!(
        MultisigAggregatedSignature::decode_readable(&r),
        Err(CodecError::InvalidMemberIndex)
    );
}

#[test]
fn both_forms_round_trip_and_agree() {
    for value in all_variants() {
        let compact = value.encode_compact().unwrap();
        let readable = value.encode_readable();
        let from_compact = UserSignature::decode_compact(&compact).unwrap();
        let from_readable = UserSignature::decode_readable(&readable).unwrap();
        assert_eq!(from_compact, value);
        assert_eq!(from_readable, value);
        assert_eq!(from_compact, from_readable);
        assert_eq!(readable.scheme, value.scheme().name());
    }
}

#[test]
fn readable_names_the_variant() {
    let all = all_variants();
    assert!(matches!(all[0].encode_readable().body, ReadableBody::Simple { .. }));
    assert!(matches!(all[3].encode_readable().body, ReadableBody::Multisig(_)));
    assert!(matches!(all[4].encode_readable().body, ReadableBody::ZkLogin(_)));
    assert_eq!(all[1].encode_readable().scheme, "secp256k1");
    assert_eq!(all[3].encode_readable().scheme, "multisig");
    assert_eq!(all[4].encode_readable().scheme, "zklogin");
}

#[test]
fn readable_name_and_variant_must_match() {
    let all = all_variants();
    for (i, value) in all.iter().enumerate() {
        for (k, other) in all.iter().enumerate() {
            let mut r = value.encode_readable();
            r.scheme = other.scheme().name().to_owned();
            let decoded = UserSignature::decode_readable(&r);
            if i == k {
                assert_eq!(decoded.unwrap(), *value);
            } else if i < 3 && k < 3 {
                if i > 0 && k > 0 {
                    // both curves take 64 and 33 bytes: the name alone decides
                    assert_eq!(decoded.unwrap().scheme(), other.scheme());
                } else if i == 0 {
                    assert_eq!(decoded, Err(CodecError::TruncatedInput));
                } else {
                    assert_eq!(decoded, Err(CodecError::TrailingData));
                }
            } else {
                assert_eq!(decoded, Err(CodecError::SchemeMismatch));
            }
        }
        let mut r = value.encode_readable();
        r.scheme = "bls12381".to_owned();
        assert_eq!(UserSignature::decode_readable(&r), Err(CodecError::SchemeMismatch));
        r.scheme = "unknown".to_owned();
        assert_eq!(UserSignature::decode_readable(&r), Err(CodecError::UnknownScheme));
    }
}

#[test]
fn readable_user_signature_is_a_value() {
    let r = ReadableUserSignature {
        scheme: "ed25519".to_owned(),
        body: ReadableBody::Simple { signature: vec![1; 64], public_key: vec![2; 32] },
    };
    assert_eq!(UserSignature::decode_readable(&r).unwrap(), UserSignature::Simple(ed25519()));
    assert_eq!(UserSignature::Simple(ed25519()).encode_readable(), r);
}
