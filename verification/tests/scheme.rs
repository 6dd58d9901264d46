use zklogin_auth::error::CodecError;
use zklogin_auth::scheme::SchemeTag;

const ALL: [SchemeTag; 6] = [
    SchemeTag::Ed25519,
    SchemeTag::Secp256k1,
    SchemeTag::Secp256r1,
    SchemeTag::Multisig,
    SchemeTag::Bls12381,
    SchemeTag::ZkLogin,
];

#[test]
fn tag_bytes_are_stable() {
    assert_eq!(SchemeTag::Ed25519.as_byte(), 0x00);
    assert_eq!(SchemeTag::Secp256k1.as_byte(), 0x01);
    assert_eq!(SchemeTag::Secp256r1.as_byte(), 0x02);
    assert_eq!(SchemeTag::Multisig.as_byte(), 0x03);
    assert_eq!(SchemeTag::Bls12381.as_byte(), 0x04);
    assert_eq!(SchemeTag::ZkLogin.as_byte(), 0x05);
}

#[test]
fn every_tag_reads_back() {
    for tag in ALL {
        assert_eq!(SchemeTag::from_byte(tag.as_byte()), Ok(tag));
    }
}

#[test]
fn every_other_byte_is_unknown() {
    for byte in 6..=255u8 {
        assert_eq!(SchemeTag::from_byte(byte), Err(CodecError::UnknownScheme));
    }
}

#[test]
fn errors_describe_themselves() {
    let all = [
        CodecError::UnknownScheme,
        CodecError::SchemeMismatch,
        CodecError::MalformedInteger,
        CodecError::TruncatedInput,
        CodecError::InvalidUtf8,
        CodecError::TrailingData,
        CodecError::InvalidMemberIndex,
    ];
    for (i, a) in all.iter().enumerate() {
        assert!(!a.describe().is_empty());
        for b in all.iter().skip(i + 1) {
            assert_ne!(a.describe(), b.describe());
        }
    }
}
