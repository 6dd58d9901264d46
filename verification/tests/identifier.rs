use zklogin_auth::address_seed::AddressSeed;
use zklogin_auth::error::CodecError;
use zklogin_auth::identifier::ZkLoginPublicIdentifier;

const ISS: &str = "https://accounts.example.com";

fn example() -> ZkLoginPublicIdentifier {
    ZkLoginPublicIdentifier::new(ISS.to_owned(), AddressSeed::new([0; 32])).unwrap()
}

#[test]
fn identifier_compact_layout() {
    let bytes = example().encode_compact();
    let mut expected = vec![ISS.len() as u8];
    expected.extend_from_slice(ISS.as_bytes());
    expected.extend_from_slice(&[0u8; 32]);
    assert_eq!(bytes, expected);
    assert_eq!(bytes.len(), 1 + 28 + 32);
    assert_eq!(bytes[0], 28);
}

#[test]
fn identifier_round_trip() {
    let id = example();
    let back = ZkLoginPublicIdentifier::decode_compact(&id.encode_compact()).unwrap();
    assert_eq!(back, id);
    assert_eq!(back.iss(), ISS);
    assert_eq!(back.address_seed(), &AddressSeed::new([0; 32]));
}

#[test]
fn identifier_truncated_by_one_byte() {
    let mut bytes = example().encode_compact();
    bytes.pop();
    assert_eq!(ZkLoginPublicIdentifier::decode_compact(&bytes), Err(CodecError::TruncatedInput));
}

#[test]
fn identifier_truncated_anywhere() {
    let bytes = example().encode_compact();
    for cut in 0..bytes.len() {
        assert_eq!(
            ZkLoginPublicIdentifier::decode_compact(&bytes[..cut]),
            Err(CodecError::TruncatedInput),
            "cut at {}",
            cut
        );
    }
}

#[test]
fn identifier_trailing_byte() {
    let mut bytes = example().encode_compact();
    bytes.push(0);
    assert_eq!(ZkLoginPublicIdentifier::decode_compact(&bytes), Err(CodecError::TrailingData));
}

#[test]
fn identifier_invalid_utf8() {
    let mut bytes = vec![2u8, 0xff, 0xfe];
    bytes.extend_from_slice(&[7u8; 32]);
    assert_eq!(ZkLoginPublicIdentifier::decode_compact(&bytes), Err(CodecError::InvalidUtf8));
}

#[test]
fn identifier_text_is_checked_before_the_seed() {
    let bytes = vec![2u8, 0xff, 0xfe, 1, 2, 3];
    assert_eq!(ZkLoginPublicIdentifier::decode_compact(&bytes), Err(CodecError::InvalidUtf8));
}

#[test]
fn identifier_empty_issuer() {
    let id = ZkLoginPublicIdentifier::new(String::new(), AddressSeed::new([9; 32])).unwrap();
    let bytes = id.encode_compact();
    assert_eq!(bytes.len(), 33);
    assert_eq!(bytes[0], 0);
    assert_eq!(ZkLoginPublicIdentifier::decode_compact(&bytes).unwrap(), id);
}

#[test]
fn identifier_issuer_of_255_bytes_fits_and_256_does_not() {
    let seed = AddressSeed::new([1; 32]);
    let longest = "a".repeat(255);
    let id = ZkLoginPublicIdentifier::new(longest.clone(), seed).unwrap();
    let bytes = id.encode_compact();
    assert_eq!(bytes[0], 255);
    assert_eq!(bytes.len(), 1 + 255 + 32);
    assert_eq!(ZkLoginPublicIdentifier::decode_compact(&bytes).unwrap().iss(), longest);
    assert!(ZkLoginPublicIdentifier::new("a".repeat(256), seed).is_none());
}

#[test]
fn identifier_length_counts_bytes_not_characters() {
    let seed = AddressSeed::new([1; 32]);
    let iss = "é".repeat(127);
    let id = ZkLoginPublicIdentifier::new(iss.clone(), seed).unwrap();
    assert_eq!(id.encode_compact()[0], 254);
    assert!(ZkLoginPublicIdentifier::new("é".repeat(128), seed).is_none());
    assert_eq!(ZkLoginPublicIdentifier::decode_compact(&id.encode_compact()).unwrap().iss(), iss);
}

#[test]
fn identifier_clone_is_equal() {
    let id = example();
    assert_eq!(id.clone(), id);
}

fn with_issuer_bytes(issuer: &[u8]) -> Vec<u8> {
    let mut bytes = vec![issuer.len() as u8];
    bytes.extend_from_slice(issuer);
    bytes.extend_from_slice(&[3u8; 32]);
    bytes
}

#[test]
fn identifier_accepts_every_width_of_utf8() {
    for issuer in ["a", "é", "€", "😀", "a é€😀"] {
        let bytes = with_issuer_bytes(issuer.as_bytes());
        let id = ZkLoginPublicIdentifier::decode_compact(&bytes).unwrap();
        assert_eq!(id.iss(), issuer);
        assert_eq!(id.encode_compact(), bytes);
    }
}

#[test]
fn identifier_rejects_ill_formed_utf8() {
    let ill_formed: [&[u8]; 7] = [
        &[0x80],
        &[0xc0, 0x80],
        &[0xe0, 0x80, 0x80],
        &[0xed, 0xa0, 0x80],
        &[0xf4, 0x90, 0x80, 0x80],
        &[0xf0, 0x9f, 0x98],
        &[0xe2, 0x82],
    ];
    for issuer in ill_formed {
        assert_eq!(
            ZkLoginPublicIdentifier::decode_compact(&with_issuer_bytes(issuer)),
            Err(CodecError::InvalidUtf8)
        );
    }
}
