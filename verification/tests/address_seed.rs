use std::str::FromStr;

use zklogin_auth::address_seed::{AddressSeed, ParseFailure};
use zklogin_auth::error::CodecError;

const MAX_DECIMAL: &str =
    "115792089237316195423570985008687907853269984665640564039457584007913129639935";
const MAX_PLUS_ONE: &str =
    "115792089237316195423570985008687907853269984665640564039457584007913129639936";

#[test]
fn unpadded_slice() {
    let seed = AddressSeed::new([0; 32]);
    let zero: [u8; 1] = [0];
    assert_eq!(seed.unpadded(), zero.as_slice());

    let mut seed = AddressSeed::new([1; 32]);
    seed.bytes[0] = 0;
    assert_eq!(seed.unpadded(), [1; 31].as_slice());
}

#[test]
fn padded_is_always_32_bytes() {
    let seed = AddressSeed::from_bytes(&[7]).unwrap();
    assert_eq!(seed.padded().len(), 32);
    assert_eq!(seed.padded()[31], 7);
    assert_eq!(&seed.padded()[..31], [0u8; 31].as_slice());
    assert_eq!(seed.unpadded(), [7u8].as_slice());
}

#[test]
fn from_bytes_pads_in_front() {
    let seed = AddressSeed::from_bytes(&[1, 2, 3]).unwrap();
    let mut expected = [0u8; 32];
    expected[29] = 1;
    expected[30] = 2;
    expected[31] = 3;
    assert_eq!(seed, AddressSeed::new(expected));
    assert_eq!(AddressSeed::from_bytes(&[]).unwrap(), AddressSeed::new([0; 32]));
    assert!(AddressSeed::from_bytes(&[1; 33]).is_none());
    assert!(AddressSeed::from_bytes(&[9; 32]).is_some());
}

#[test]
fn decimal_of_known_values() {
    assert_eq!(AddressSeed::new([0; 32]).to_decimal_string(), "0");
    assert_eq!(AddressSeed::from_bytes(&[1, 0]).unwrap().to_decimal_string(), "256");
    assert_eq!(AddressSeed::from_bytes(&[0x01, 0x00, 0x00]).unwrap().to_decimal_string(), "65536");
    assert_eq!(AddressSeed::new([0xff; 32]).to_decimal_string(), MAX_DECIMAL);
}

#[test]
fn parse_known_values() {
    assert_eq!(AddressSeed::from_decimal_string("0").unwrap(), AddressSeed::new([0; 32]));
    assert_eq!(
        AddressSeed::from_decimal_string("258").unwrap(),
        AddressSeed::from_bytes(&[1, 2]).unwrap()
    );
    assert_eq!(
        AddressSeed::from_decimal_string("000258").unwrap(),
        AddressSeed::from_bytes(&[1, 2]).unwrap()
    );
    assert_eq!(AddressSeed::from_decimal_string(MAX_DECIMAL).unwrap(), AddressSeed::new([0xff; 32]));
}

#[test]
fn parse_rejects_malformed_decimal() {
    let e = AddressSeed::from_decimal_string("12x3").unwrap_err();
    assert_eq!(e.reason, ParseFailure::InvalidDigit);
    assert_eq!(e.to_codec_error(), CodecError::MalformedInteger);
    let e = AddressSeed::from_decimal_string("").unwrap_err();
    assert_eq!(e.reason, ParseFailure::Empty);
    assert_eq!(e.to_codec_error(), CodecError::MalformedInteger);
}

#[test]
fn parse_rejects_signs_and_spaces() {
    assert_eq!(AddressSeed::from_decimal_string("+5").unwrap_err().reason, ParseFailure::InvalidDigit);
    assert_eq!(AddressSeed::from_decimal_string("-5").unwrap_err().reason, ParseFailure::InvalidDigit);
    assert_eq!(AddressSeed::from_decimal_string(" 5").unwrap_err().reason, ParseFailure::InvalidDigit);
    assert_eq!(AddressSeed::from_decimal_string("5 ").unwrap_err().reason, ParseFailure::InvalidDigit);
    assert_eq!(AddressSeed::from_decimal_string("1_000").unwrap_err().reason, ParseFailure::InvalidDigit);
    assert_eq!(AddressSeed::from_decimal_string("٣").unwrap_err().reason, ParseFailure::InvalidDigit);
}

#[test]
fn parse_rejects_more_than_256_bits() {
    let e = AddressSeed::from_decimal_string(MAX_PLUS_ONE).unwrap_err();
    assert_eq!(e.reason, ParseFailure::Overflow);
    assert_eq!(e.to_codec_error(), CodecError::MalformedInteger);
}

#[test]
fn dont_crash_on_large_inputs() {
    let mut text = String::new();
    for len in 0..1024usize {
        text.push(char::from(b'0' + (len % 10) as u8 + if len == 0 { 1 } else { 0 }).min('9'));
        let r = AddressSeed::from_decimal_string(&text);
        if len >= 78 {
            assert_eq!(r.unwrap_err().reason, ParseFailure::Overflow);
        }
    }
}

#[test]
fn valid_address_seeds() {
    let mut state: u64 = 0x9e37_79b9_7f4a_7c15;
    for round in 0..200usize {
        let len = 1 + round % 32;
        let mut bytes = Vec::new();
        for _ in 0..len {
            state = state.wrapping_mul(6364136223846793005).wrapping_add(1442695040888963407);
            bytes.push((state >> 56) as u8);
        }
        let seed = AddressSeed::from_bytes(&bytes).unwrap();
        let radix10 = seed.to_decimal_string();
        let back = AddressSeed::from_str(&radix10).unwrap();
        assert_eq!(back, seed);
        assert_eq!(radix10, back.to_decimal_string());
        assert!(!seed.unpadded().is_empty());
    }
}

#[test]
fn error_message_is_the_prefix_and_the_text_of_bnum() {
    let e = AddressSeed::from_decimal_string("").unwrap_err();
    assert_eq!(
        e.message(),
        "unable to parse radix10 encoded value (bnum) attempt to parse integer from empty string"
    );
    let e = AddressSeed::from_decimal_string("12x3").unwrap_err();
    assert_eq!(
        e.message(),
        "unable to parse radix10 encoded value (bnum) attempt to parse integer from string containing invalid digit"
    );
    let e = AddressSeed::from_decimal_string(MAX_PLUS_ONE).unwrap_err();
    assert_eq!(
        e.message(),
        "unable to parse radix10 encoded value (bnum) attempt to parse integer too large to be represented by the target type"
    );
}

#[test]
fn error_message_follows_what_bnum_displays() {
    for text in ["", "12x3", " 7", MAX_PLUS_ONE] {
        let ours = AddressSeed::from_decimal_string(text).unwrap_err();
        let theirs = bnum::types::U256::from_str_radix(text, 10).unwrap_err();
        assert_eq!(
            ours.message(),
            format!("unable to parse radix10 encoded value {}", theirs)
        );
    }
}

#[test]
fn error_message_for_a_sign_is_that_of_an_invalid_digit() {
    assert!(bnum::types::U256::from_str_radix("+5", 10).is_ok());
    let e = AddressSeed::from_decimal_string("+5").unwrap_err();
    let invalid = bnum::types::U256::from_str_radix("x", 10).unwrap_err();
    assert_eq!(e.message(), format!("unable to parse radix10 encoded value {}", invalid));
}
