//! Text on the wire: strings as UTF-8 bytes.

use vstd::prelude::*;
use vstd::utf8::{decode_utf8, encode_utf8, valid_utf8};

verus! {

/// Calls `std::str::from_utf8` and copies the text into a `String`.
///
/// Trusted: std accepts exactly the well-formed UTF-8 byte strings, and the
/// text it returns is what the bytes encode.
#[verifier::external_body]
pub(crate) fn string_from_utf8(bytes: &[u8]) -> (text: Option<String>)
    ensures
        match text {
            Some(s) => valid_utf8(bytes@) && s@ == decode_utf8(bytes@),
            None => !valid_utf8(bytes@),
        },
{
    match std::str::from_utf8(bytes) {
        Ok(s) => Some(s.to_owned()),
        Err(_) => None,
    }
}

/// The number of bytes that a text takes in UTF-8.
pub open spec fn utf8_len(text: Seq<char>) -> nat {
    encode_utf8(text).len()
}

/// Appends the UTF-8 bytes of `text` to `out`.
pub(crate) fn push_utf8(out: &mut Vec<u8>, text: &str)
    ensures
        final(out)@ == old(out)@ + encode_utf8(text@),
{
    out.extend_from_slice(text.as_bytes());
}

/// Appends `bytes` to `out`.
pub(crate) fn push_bytes(out: &mut Vec<u8>, bytes: &[u8])
    ensures
        final(out)@ == old(out)@ + bytes@,
{
    out.extend_from_slice(bytes);
}

/// Whether two texts are the same.
pub fn same_text(a: &str, b: &str) -> (same: bool)
    ensures
        same == (a@ == b@),
{
    let a = a.to_owned();
    let b = b.to_owned();
    a == b
}

/// A copy of a list of texts.
pub fn copy_texts(texts: &Vec<String>) -> (copy: Vec<String>)
    ensures
        copy.deep_view() == texts.deep_view(),
{
    let mut copy: Vec<String> = Vec::new();
    let mut i: usize = 0;
    while i < texts.len()
        invariant
            i <= texts@.len(),
            copy@.len() == i,
            forall|k: int| 0 <= k < i ==> copy@[k]@ == texts@[k]@,
        decreases texts@.len() - i,
    {
        copy.push(texts[i].clone());
        i += 1;
    }
    assert(copy.deep_view() =~= texts.deep_view());
    copy
}

/// A copy of a list of lists of texts.
pub fn copy_text_lists(lists: &Vec<Vec<String>>) -> (copy: Vec<Vec<String>>)
    ensures
        copy.deep_view() == lists.deep_view(),
{
    let mut copy: Vec<Vec<String>> = Vec::new();
    let mut i: usize = 0;
    while i < lists.len()
        invariant
            i <= lists@.len(),
            copy@.len() == i,
            forall|k: int| 0 <= k < i ==> copy@[k].deep_view() == lists@[k].deep_view(),
        decreases lists@.len() - i,
    {
        copy.push(copy_texts(&lists[i]));
        i += 1;
    }
    assert(copy.deep_view() =~= lists.deep_view());
    copy
}

} // verus!
