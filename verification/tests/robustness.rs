use zklogin_auth::address_seed::{AddressSeed, ParseFailure};
use zklogin_auth::identifier::ZkLoginPublicIdentifier;
use zklogin_auth::multisig::MultisigAggregatedSignature;
use zklogin_auth::simple::SimpleSignature;
use zklogin_auth::user_signature::UserSignature;
use zklogin_auth::zklogin::ZkLoginAuthenticator;

struct Lcg(u64);

impl Lcg {
    fn next(&mut self) -> u64 {
        self.0 = self.0.wrapping_mul(6364136223846793005).wrapping_add(1442695040888963407);
        self.0 >> 33
    }

    fn bytes(&mut self, len: usize) -> Vec<u8> {
        (0..len).map(|_| self.next() as u8).collect()
    }
}

#[test]
fn decimal_parser_never_panics_on_arbitrary_text() {
    let alphabet: Vec<char> = "0123456789+-_ xaé٣\u{0}\n".chars().collect();
    let mut rng = Lcg(7);
    for round in 0..400usize {
        let len = (rng.next() as usize) % 200;
        let mut text = String::new();
        for _ in 0..len {
            let pick = if round % 3 == 0 { rng.next() as usize % 10 } else { rng.next() as usize % alphabet.len() };
            text.push(alphabet[pick]);
        }
        let all_digits = !text.is_empty() && text.chars().all(|c| c.is_ascii_digit());
        match AddressSeed::from_decimal_string(&text) {
            Ok(seed) => {
                assert!(all_digits);
                let canonical = seed.to_decimal_string();
                let trimmed = text.trim_start_matches('0');
                assert_eq!(canonical, if trimmed.is_empty() { "0" } else { trimmed });
            }
            Err(e) => match e.reason {
                ParseFailure::Empty => assert!(text.is_empty()),
                ParseFailure::InvalidDigit => assert!(!text.is_empty() && !all_digits),
                ParseFailure::Overflow => assert!(all_digits && text.trim_start_matches('0').len() >= 78),
            },
        }
    }
}

#[test]
fn decimal_parser_takes_text_of_1024_bytes() {
    let zeros = "0".repeat(1023);
    assert_eq!(
        AddressSeed::from_decimal_string(&format!("{}7", zeros)).unwrap(),
        AddressSeed::from_bytes(&[7]).unwrap()
    );
    let nines = "9".repeat(1024);
    assert_eq!(AddressSeed::from_decimal_string(&nines).unwrap_err().reason, ParseFailure::Overflow);
    let mixed = format!("{}x", "1".repeat(1023));
    assert_eq!(
        AddressSeed::from_decimal_string(&mixed).unwrap_err().reason,
        ParseFailure::InvalidDigit
    );
}

#[test]
fn decoders_never_panic_on_arbitrary_bytes() {
    let mut rng = Lcg(11);
    for round in 0..3000usize {
        let len = (rng.next() as usize) % 300;
        let mut bytes = rng.bytes(len);
        if !bytes.is_empty() && round % 2 == 0 {
            bytes[0] = (round % 7) as u8;
        }
        let _ = ZkLoginPublicIdentifier::decode_compact(&bytes);
        let _ = SimpleSignature::decode_compact(&bytes);
        let _ = MultisigAggregatedSignature::decode_compact(&bytes);
        let _ = ZkLoginAuthenticator::from_serialized_bytes(&bytes);
        if let Ok(value) = UserSignature::decode_compact(&bytes) {
            assert_eq!(value.encode_compact().unwrap(), bytes);
        }
    }
}

#[test]
fn what_decodes_encodes_to_the_same_bytes() {
    let mut rng = Lcg(13);
    let mut accepted = 0;
    for _ in 0..2000usize {
        let iss_len = (rng.next() as usize) % 6;
        let mut bytes = vec![iss_len as u8];
        for _ in 0..iss_len {
            bytes.push(b'a' + (rng.next() % 26) as u8);
        }
        bytes.extend_from_slice(&rng.bytes(32));
        let id = ZkLoginPublicIdentifier::decode_compact(&bytes).unwrap();
        assert_eq!(id.encode_compact(), bytes);
        accepted += 1;

        let mut simple = vec![(rng.next() % 3) as u8];
        let key_len = if simple[0] == 0 { 32 } else { 33 };
        simple.extend_from_slice(&rng.bytes(64 + key_len));
        let s = SimpleSignature::decode_compact(&simple).unwrap();
        assert_eq!(s.encode_compact(), simple);
    }
    assert_eq!(accepted, 2000);
}
