//! Integers on the wire: two bytes, least significant first.

use vstd::prelude::*;

verus! {

/// The two bytes of a 16-bit number, least significant first.
pub open spec fn u16_le(value: u16) -> Seq<u8> {
    seq![(value % 256) as u8, (value / 256) as u8]
}

/// The 16-bit number of two bytes, least significant first.
pub open spec fn u16_of_le(low: u8, high: u8) -> u16 {
    (low + 256 * high) as u16
}

/// Two bytes read back as the number that they were written for.
pub proof fn lemma_u16_le_round_trip(value: u16)
    ensures
        u16_le(value).len() == 2,
        u16_of_le(u16_le(value)[0], u16_le(value)[1]) == value,
{
}

/// A number written as two bytes gives the bytes that it was read from.
pub proof fn lemma_u16_le_canonical(low: u8, high: u8)
    ensures
        u16_le(u16_of_le(low, high)) == seq![low, high],
{
    assert(u16_le(u16_of_le(low, high)) =~= seq![low, high]);
}

/// Appends the two bytes of a 16-bit number, least significant first.
pub fn push_u16_le(out: &mut Vec<u8>, value: u16)
    ensures
        final(out)@ == old(out)@ + u16_le(value),
{
    out.push((value % 256) as u8);
    out.push((value / 256) as u8);
    assert(out@ =~= old(out)@ + u16_le(value));
}

/// The 16-bit number of two bytes, least significant first.
pub fn read_u16_le(low: u8, high: u8) -> (value: u16)
    ensures
        value == u16_of_le(low, high),
{
    low as u16 + 256 * (high as u16)
}

} // verus!
