//! The address seed: a 256-bit number, kept as 32 big-endian bytes and
//! written for people as a decimal string.

use vstd::prelude::*;
use vstd::slice::slice_subrange;
use vstd::string::{is_ascii_spec_bytes, StringExecFns, StringSliceAdditionalSpecFns};
use crate::decimal::{
    be_bytes, be_value, decimal_digits, decimal_value, is_canonical_decimal, is_decimal, is_digit,
    lemma_be_bytes_of_value, lemma_be_value_bound, lemma_be_value_injective, lemma_be_value_skip_zeros,
    lemma_canonical_decimal_unique, lemma_decimal_digits_value, pow256,
};
use crate::error::CodecError;

verus! {

/// Why a string is not the decimal form of an address seed.
#[derive(Clone, Copy, Debug, PartialEq, Eq, Structural)]
pub enum ParseFailure {
    /// The string is empty.
    Empty,
    /// The string holds a character that is no decimal digit.
    InvalidDigit,
    /// The digits stand for a number of more than 256 bits.
    Overflow,
}

/// The error of [`AddressSeed::from_decimal_string`].
#[derive(Clone, Copy, Debug, PartialEq, Eq, Structural)]
pub struct AddressSeedParseError {
    pub reason: ParseFailure,
}

/// A 256-bit number, stored as 32 bytes, most significant byte first.
#[derive(Clone, Copy, Debug, PartialEq, Eq, Hash)]
pub struct AddressSeed {
    pub bytes: [u8; 32],
}

impl View for AddressSeed {
    type V = Seq<u8>;

    /// The 32 stored bytes.
    open spec fn view(&self) -> Seq<u8> {
        self.bytes@
    }
}

/// Why `s` is refused, for a string that is no decimal number below `256^32`.
pub open spec fn parse_failure(s: Seq<char>) -> ParseFailure {
    if s.len() == 0 {
        ParseFailure::Empty
    } else if !is_decimal(s) {
        ParseFailure::InvalidDigit
    } else {
        ParseFailure::Overflow
    }
}

/// The index at which the unpadded form of `bytes` starts: the first byte
/// that is not zero, or the last byte where all are zero.
pub open spec fn unpadded_start(bytes: Seq<u8>) -> int
    decreases bytes.len(),
{
    if bytes.len() <= 1 || bytes[0] != 0 {
        0
    } else {
        1 + unpadded_start(bytes.skip(1))
    }
}

/// The digits that bnum reads: the string itself, or what follows one
/// leading `+`.
pub open spec fn after_plus_sign(s: Seq<char>) -> Seq<char> {
    if s.len() > 0 && s[0] == '+' {
        s.skip(1)
    } else {
        s
    }
}

/// The number that bnum reads from a string, where it reads one: the value
/// of the digits, if there is at least one digit, nothing but digits, and the
/// value is below `256^32`.
pub open spec fn parsed_u256(s: Seq<char>) -> Option<nat> {
    let digits = after_plus_sign(s);
    if is_decimal(digits) && decimal_value(digits) < pow256(32) {
        Some(decimal_value(digits))
    } else {
        None
    }
}

/// The declaration of bnum's error type for a failed parse.
#[verifier::external_type_specification]
#[verifier::external_body]
pub struct ExParseIntError(bnum::errors::ParseIntError);

/// Calls `bnum::types::U256::from_str_radix` with radix 10 and hands the
/// number back as big-endian bytes.
///
/// Trusted: bnum accepts an optional `+` followed by one or more decimal
/// digits whose value is below `2^256`, and nothing else; the number it
/// returns is the value of those digits.
#[verifier::external_body]
fn parse_u256_decimal(s: &str) -> (r: Result<[u8; 32], bnum::errors::ParseIntError>)
    ensures
        match r {
            Ok(bytes) => parsed_u256(s@) == Some(be_value(bytes@)),
            Err(_) => parsed_u256(s@) is None,
        },
{
    match bnum::types::U256::from_str_radix(s, 10) {
        Ok(n) => Ok(n.to_be_bytes()),
        Err(e) => Err(e),
    }
}

/// Calls `bnum::types::U256::to_str_radix` with radix 10 on the number that
/// the big-endian bytes stand for.
///
/// Trusted: bnum writes the number in decimal digits without a sign and
/// without leading zeros, and zero as `"0"`.
#[verifier::external_body]
fn render_u256_decimal(bytes: &[u8; 32]) -> (s: String)
    ensures
        s@ == decimal_digits(be_value(bytes@)),
{
    bnum::types::U256::from_be_bytes(*bytes).to_str_radix(10)
}

/// Whether every character of an ASCII string is a decimal digit.
fn all_digits(s: &str) -> (yes: bool)
    requires
        s.is_ascii(),
    ensures
        yes == (forall|i: int| 0 <= i < s@.len() ==> is_digit(#[trigger] s@[i])),
{
    broadcast use is_ascii_spec_bytes;

    let bytes = s.as_bytes();
    let mut i: usize = 0;
    while i < bytes.len()
        invariant
            i <= bytes.len(),
            s.is_ascii(),
            bytes@ == s.spec_bytes(),
            bytes@.len() == s@.len(),
            forall|j: int| 0 <= j < s@.len() ==> bytes@[j] == s@[j] as u8,
            forall|j: int| 0 <= j < i ==> is_digit(#[trigger] s@[j]),
        decreases bytes.len() - i,
    {
        let b = bytes[i];
        if b < 48 || b > 57 {
            assert(!is_digit(s@[i as int]));
            return false;
        }
        assert(is_digit(s@[i as int]));
        i += 1;
    }
    true
}

impl AddressSeed {
    /// The number that the seed stands for.
    pub open spec fn value(&self) -> nat {
        be_value(self@)
    }

    /// Wraps 32 big-endian bytes.
    pub fn new(bytes: [u8; 32]) -> (seed: AddressSeed)
        ensures
            seed.bytes == bytes,
    {
        AddressSeed { bytes }
    }

    /// The seed for a big-endian number of at most 32 bytes, filled up with
    /// zero bytes in front. `None` for more than 32 bytes.
    pub fn from_bytes(bytes: &[u8]) -> (seed: Option<AddressSeed>)
        ensures
            seed is Some <==> bytes@.len() <= 32,
            seed matches Some(s) ==> {
                &&& s@ == Seq::new((32 - bytes@.len()) as nat, |i: int| 0u8) + bytes@
                &&& s.value() == be_value(bytes@)
            },
    {
        let n = bytes.len();
        if n > 32 {
            return None;
        }
        let mut out: [u8; 32] = [0u8; 32];
        let pad: usize = 32 - n;
        let mut i: usize = 0;
        while i < n
            invariant
                n == bytes@.len(),
                n <= 32,
                pad == 32 - n,
                i <= n,
                forall|j: int| 0 <= j < pad ==> out@[j] == 0,
                forall|j: int| 0 <= j < i ==> out@[pad + j] == bytes@[j],
            decreases n - i,
        {
            out[pad + i] = bytes[i];
            i += 1;
        }
        let seed = AddressSeed { bytes: out };
        proof {
            let padding = Seq::new(pad as nat, |i: int| 0u8);
            assert(seed@ =~= padding + bytes@);
            lemma_be_value_skip_zeros(seed@, pad as int);
            assert(seed@.skip(pad as int) =~= bytes@);
        }
        Some(seed)
    }

    /// All 32 bytes.
    pub fn padded(&self) -> (bytes: &[u8])
        ensures
            bytes@ == self@,
            bytes@.len() == 32,
    {
        self.bytes.as_slice()
    }

    /// The bytes without the zero bytes in front. Never empty: zero is one
    /// zero byte.
    pub fn unpadded(&self) -> (bytes: &[u8])
        ensures
            0 <= unpadded_start(self@) <= 31,
            bytes@ == self@.skip(unpadded_start(self@)),
            bytes@.len() == 32 - unpadded_start(self@),
            bytes@.len() == 1 || bytes@[0] != 0,
            forall|i: int| 0 <= i < 32 - bytes@.len() ==> self@[i] == 0,
            be_value(bytes@) == self.value(),
    {
        let all = self.bytes.as_slice();
        let mut k: usize = 0;
        assert(self@.skip(0) =~= self@);
        while k < 31 && all[k] == 0
            invariant
                all@ == self@,
                all@.len() == 32,
                k <= 31,
                forall|i: int| 0 <= i < k ==> self@[i] == 0,
                unpadded_start(self@) == k + unpadded_start(self@.skip(k as int)),
            decreases 31 - k,
        {
            proof {
                let rest = self@.skip(k as int);
                assert(rest[0] == 0 && rest.len() > 1);
                assert(rest.skip(1) =~= self@.skip(k + 1));
            }
            k += 1;
        }
        proof {
            let rest = self@.skip(k as int);
            assert(rest.len() == 32 - k);
            assert(rest[0] == self@[k as int]);
            assert(unpadded_start(rest) == 0);
            lemma_be_value_skip_zeros(self@, k as int);
        }
        let out = slice_subrange(all, k, 32);
        assert(out@ =~= self@.skip(k as int));
        out
    }

    /// The seed that a decimal string stands for.
    ///
    /// The string must be made of decimal digits only, at least one, and
    /// stand for a number below `2^256`; leading zeros are read and change
    /// nothing. Everything else is refused, with the reason.
    pub fn from_decimal_string(s: &str) -> (r: Result<AddressSeed, AddressSeedParseError>)
        ensures
            r is Ok <==> is_decimal(s@) && decimal_value(s@) < pow256(32),
            r matches Ok(seed) ==> seed.value() == decimal_value(s@) && seed@ == be_bytes(
                decimal_value(s@),
                32,
            ),
            r matches Err(e) ==> e.reason == parse_failure(s@),
    {
        if s.is_empty() {
            return Err(AddressSeedParseError { reason: ParseFailure::Empty });
        }
        if !s.is_ascii() {
            proof {
                let i = choose|i: int| 0 <= i < s@.len() && !('\0' <= #[trigger] s@[i] <= '\u{7f}');
                assert(!is_digit(s@[i]));
            }
            return Err(AddressSeedParseError { reason: ParseFailure::InvalidDigit });
        }
        if !all_digits(s) {
            return Err(AddressSeedParseError { reason: ParseFailure::InvalidDigit });
        }
        assert(is_decimal(s@));
        assert(after_plus_sign(s@) == s@) by {
            assert(is_digit(s@[0]));
        }
        match parse_u256_decimal(s) {
            Ok(bytes) => {
                proof {
                    lemma_be_bytes_of_value(bytes@);
                }
                Ok(AddressSeed { bytes })
            },
            Err(_) => Err(AddressSeedParseError { reason: ParseFailure::Overflow }),
        }
    }

    /// The seed's number in decimal digits, without leading zeros.
    pub fn to_decimal_string(&self) -> (s: String)
        ensures
            s@ == decimal_digits(self.value()),
            is_canonical_decimal(s@),
            decimal_value(s@) == self.value(),
    {
        proof {
            lemma_decimal_digits_value(self.value());
        }
        render_u256_decimal(&self.bytes)
    }
}

/// Two seeds that stand for one number are the same seed.
pub proof fn lemma_seed_value_injective(a: AddressSeed, b: AddressSeed)
    requires
        a.value() == b.value(),
    ensures
        a == b,
{
    lemma_be_value_injective(a@, b@);
    assert(a.bytes@ =~= b.bytes@);
    assert(a.bytes == b.bytes);
}

/// A seed stands for a number below `256^32`.
pub proof fn lemma_seed_value_bound(seed: AddressSeed)
    ensures
        seed.value() < pow256(32),
{
    lemma_be_value_bound(seed@);
}

/// Writing a seed in decimal and reading the digits back gives the seed
/// again: the digits are accepted, and a seed `back` that stands for their
/// value is `seed` itself.
pub proof fn lemma_decimal_round_trip(seed: AddressSeed, back: AddressSeed)
    requires
        back.value() == decimal_value(decimal_digits(seed.value())),
    ensures
        is_decimal(decimal_digits(seed.value())),
        decimal_value(decimal_digits(seed.value())) < pow256(32),
        back == seed,
{
    lemma_decimal_digits_value(seed.value());
    lemma_seed_value_bound(seed);
    lemma_seed_value_injective(seed, back);
}

/// Reading a decimal string in its shortest form and writing the seed in
/// decimal gives the string again.
pub proof fn lemma_canonical_text_round_trip(text: Seq<char>, seed: AddressSeed)
    requires
        is_canonical_decimal(text),
        seed.value() == decimal_value(text),
    ensures
        decimal_digits(seed.value()) == text,
{
    lemma_canonical_decimal_unique(text);
}

/// What stands in front of every message of a parse error.
pub open spec fn message_prefix() -> Seq<char> {
    "unable to parse radix10 encoded value "@
}

/// The text that bnum displays for a parse error of the same kind: its name
/// in brackets, a space, and one sentence.
pub open spec fn bnum_text(reason: ParseFailure) -> Seq<char> {
    match reason {
        ParseFailure::Empty => "(bnum) attempt to parse integer from empty string"@,
        ParseFailure::InvalidDigit => "(bnum) attempt to parse integer from string containing invalid digit"@,
        ParseFailure::Overflow => "(bnum) attempt to parse integer too large to be represented by the target type"@,
    }
}

impl AddressSeedParseError {
    /// The text of [`AddressSeedParseError::message`] for each reason: the
    /// prefix, then the text that bnum displays for an error of that kind.
    pub open spec fn message_of(reason: ParseFailure) -> Seq<char> {
        message_prefix() + bnum_text(reason)
    }

    /// The message that goes with the error.
    ///
    /// An input that is refused without asking bnum (a sign, a character
    /// that is no digit) has the message of the kind that it falls under.
    pub fn message(&self) -> (text: String)
        ensures
            text@ == Self::message_of(self.reason),
    {
        let prefix = "unable to parse radix10 encoded value ".to_owned();
        match self.reason {
            ParseFailure::Empty => prefix.concat(
                "(bnum) attempt to parse integer from empty string",
            ),
            ParseFailure::InvalidDigit => prefix.concat(
                "(bnum) attempt to parse integer from string containing invalid digit",
            ),
            ParseFailure::Overflow => prefix.concat(
                "(bnum) attempt to parse integer too large to be represented by the target type",
            ),
        }
    }

    /// Every parse failure is a malformed integer to a decoder.
    pub fn to_codec_error(&self) -> (e: CodecError)
        ensures
            e == CodecError::MalformedInteger,
    {
        CodecError::MalformedInteger
    }
}

impl std::str::FromStr for AddressSeed {
    type Err = AddressSeedParseError;

    fn from_str(s: &str) -> (r: Result<AddressSeed, AddressSeedParseError>)
        ensures
            r is Ok <==> is_decimal(s@) && decimal_value(s@) < pow256(32),
            r matches Ok(seed) ==> seed.value() == decimal_value(s@),
            r matches Err(e) ==> e.reason == parse_failure(s@),
    {
        AddressSeed::from_decimal_string(s)
    }
}

} // verus!
