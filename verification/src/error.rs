//! The failures that decoding can report.

use vstd::prelude::*;

verus! {

/// Why a decoder refused its input.
#[derive(Clone, Copy, Debug, PartialEq, Eq, Structural)]
pub enum CodecError {
    /// A tag byte names no scheme of the closed set.
    UnknownScheme,
    /// A tag byte names a scheme, but not the one that this decoder reads.
    SchemeMismatch,
    /// A decimal string holds something other than digits, or a value of
    /// more than 256 bits.
    MalformedInteger,
    /// The input ends before the value does.
    TruncatedInput,
    /// A region that must be text is not well-formed UTF-8.
    InvalidUtf8,
    /// A whole value was read and bytes remain.
    TrailingData,
    /// A multisig bitmap points at a committee position that does not exist.
    InvalidMemberIndex,
}

impl CodecError {
    /// A short description, for messages.
    pub fn describe(&self) -> (text: &'static str)
        ensures
            text@ == Self::description(*self),
    {
        match self {
            CodecError::UnknownScheme => "unknown signature scheme",
            CodecError::SchemeMismatch => "signature scheme does not match",
            CodecError::MalformedInteger => "malformed decimal integer",
            CodecError::TruncatedInput => "input is truncated",
            CodecError::InvalidUtf8 => "text is not valid utf-8",
            CodecError::TrailingData => "trailing data after value",
            CodecError::InvalidMemberIndex => "bitmap names a member outside the committee",
        }
    }

    /// The text that [`CodecError::describe`] returns.
    pub open spec fn description(e: CodecError) -> Seq<char> {
        match e {
            CodecError::UnknownScheme => "unknown signature scheme"@,
            CodecError::SchemeMismatch => "signature scheme does not match"@,
            CodecError::MalformedInteger => "malformed decimal integer"@,
            CodecError::TruncatedInput => "input is truncated"@,
            CodecError::InvalidUtf8 => "text is not valid utf-8"@,
            CodecError::TrailingData => "trailing data after value"@,
            CodecError::InvalidMemberIndex => "bitmap names a member outside the committee"@,
        }
    }
}

} // verus!
