//! Fixed-length byte strings.

use vstd::prelude::*;

verus! {

/// The array that holds exactly the bytes of a slice, if the slice has the
/// array's length.
pub fn array_from_slice<const N: usize>(bytes: &[u8]) -> (array: Option<[u8; N]>)
    ensures
        array is Some <==> bytes@.len() == N,
        array matches Some(a) ==> a@ == bytes@,
{
    if bytes.len() != N {
        return None;
    }
    let mut out: [u8; N] = [0u8; N];
    let mut i: usize = 0;
    while i < N
        invariant
            bytes@.len() == N,
            i <= N,
            forall|j: int| 0 <= j < i ==> out@[j] == bytes@[j],
        decreases N - i,
    {
        out[i] = bytes[i];
        i += 1;
    }
    assert(out@ =~= bytes@);
    Some(out)
}

} // verus!
