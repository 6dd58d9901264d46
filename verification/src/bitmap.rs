//! Bitmaps of sixteen positions, and the ascending list of the positions
//! that a bitmap names.

use vstd::prelude::*;

verus! {

/// The number of positions that a bitmap can name.
pub const BITMAP_WIDTH: usize = 16;

/// Whether bit `i` of a bitmap is set. No bit is set at a position outside
/// the bitmap.
pub open spec fn bit_set(bitmap: u16, i: int) -> bool {
    0 <= i < 16 && (bitmap >> (i as u16)) & 1 == 1
}

/// The positions below `n` that a bitmap names, in ascending order.
pub open spec fn positions_below(bitmap: u16, n: nat) -> Seq<u8>
    decreases n,
{
    if n == 0 {
        Seq::empty()
    } else {
        let rest = positions_below(bitmap, (n - 1) as nat);
        if bit_set(bitmap, n - 1) {
            rest.push((n - 1) as u8)
        } else {
            rest
        }
    }
}

/// All positions that a bitmap names, in ascending order.
pub open spec fn positions(bitmap: u16) -> Seq<u8> {
    positions_below(bitmap, 16)
}

/// The number of bits that are set in a bitmap.
pub open spec fn population(bitmap: u16) -> nat {
    positions(bitmap).len()
}

/// Whether each position is above the one before it and below `limit`.
pub open spec fn ascending_below(ps: Seq<u8>, limit: int) -> bool {
    &&& forall|i: int, j: int| 0 <= i < j < ps.len() ==> ps[i] < ps[j]
    &&& forall|i: int| 0 <= i < ps.len() ==> (#[trigger] ps[i]) < limit
}

/// The bitmap that names the positions of a list.
pub open spec fn bitmap_of(ps: Seq<u8>) -> u16
    decreases ps.len(),
{
    if ps.len() == 0 {
        0
    } else {
        bitmap_of(ps.drop_last()) | (1u16 << (ps.last() as u16))
    }
}

proof fn lemma_bit_of_or(bitmap: u16, p: u16, j: u16)
    requires
        p < 16,
        j < 16,
    ensures
        ((bitmap | (1u16 << p)) >> j) & 1 == 1 <==> (p == j || (bitmap >> j) & 1 == 1),
{
    assert(((bitmap | (1u16 << p)) >> j) & 1 == 1 <==> (p == j || (bitmap >> j) & 1 == 1))
        by (bit_vector)
        requires
            p < 16,
            j < 16,
    ;
}

proof fn lemma_bit_of_zero(j: u16)
    requires
        j < 16,
    ensures
        (0u16 >> j) & 1 == 0,
{
    assert((0u16 >> j) & 1 == 0) by (bit_vector);
}

proof fn lemma_bits_determine(a: u16, b: u16)
    requires
        forall|i: int| 0 <= i < 16 ==> (bit_set(a, i) <==> bit_set(b, i)),
    ensures
        a == b,
{
    assert(bit_set(a, 0) <==> bit_set(b, 0));
    assert(bit_set(a, 1) <==> bit_set(b, 1));
    assert(bit_set(a, 2) <==> bit_set(b, 2));
    assert(bit_set(a, 3) <==> bit_set(b, 3));
    assert(bit_set(a, 4) <==> bit_set(b, 4));
    assert(bit_set(a, 5) <==> bit_set(b, 5));
    assert(bit_set(a, 6) <==> bit_set(b, 6));
    assert(bit_set(a, 7) <==> bit_set(b, 7));
    assert(bit_set(a, 8) <==> bit_set(b, 8));
    assert(bit_set(a, 9) <==> bit_set(b, 9));
    assert(bit_set(a, 10) <==> bit_set(b, 10));
    assert(bit_set(a, 11) <==> bit_set(b, 11));
    assert(bit_set(a, 12) <==> bit_set(b, 12));
    assert(bit_set(a, 13) <==> bit_set(b, 13));
    assert(bit_set(a, 14) <==> bit_set(b, 14));
    assert(bit_set(a, 15) <==> bit_set(b, 15));
    assert(a == b) by (bit_vector)
        requires
            ((a >> 0u16) & 1 == 1) <==> ((b >> 0u16) & 1 == 1),
            ((a >> 1u16) & 1 == 1) <==> ((b >> 1u16) & 1 == 1),
            ((a >> 2u16) & 1 == 1) <==> ((b >> 2u16) & 1 == 1),
            ((a >> 3u16) & 1 == 1) <==> ((b >> 3u16) & 1 == 1),
            ((a >> 4u16) & 1 == 1) <==> ((b >> 4u16) & 1 == 1),
            ((a >> 5u16) & 1 == 1) <==> ((b >> 5u16) & 1 == 1),
            ((a >> 6u16) & 1 == 1) <==> ((b >> 6u16) & 1 == 1),
            ((a >> 7u16) & 1 == 1) <==> ((b >> 7u16) & 1 == 1),
            ((a >> 8u16) & 1 == 1) <==> ((b >> 8u16) & 1 == 1),
            ((a >> 9u16) & 1 == 1) <==> ((b >> 9u16) & 1 == 1),
            ((a >> 10u16) & 1 == 1) <==> ((b >> 10u16) & 1 == 1),
            ((a >> 11u16) & 1 == 1) <==> ((b >> 11u16) & 1 == 1),
            ((a >> 12u16) & 1 == 1) <==> ((b >> 12u16) & 1 == 1),
            ((a >> 13u16) & 1 == 1) <==> ((b >> 13u16) & 1 == 1),
            ((a >> 14u16) & 1 == 1) <==> ((b >> 14u16) & 1 == 1),
            ((a >> 15u16) & 1 == 1) <==> ((b >> 15u16) & 1 == 1),
    ;
}

/// The positions below `n` that a bitmap names are the set bits below `n`,
/// each once, in ascending order.
pub proof fn lemma_positions_below(bitmap: u16, n: nat)
    requires
        n <= 16,
    ensures
        ascending_below(positions_below(bitmap, n), n as int),
        positions_below(bitmap, n).len() <= n,
        forall|p: u8| positions_below(bitmap, n).contains(p) <==> (p < n && bit_set(bitmap, p as int)),
    decreases n,
{
    if n > 0 {
        let m = (n - 1) as nat;
        lemma_positions_below(bitmap, m);
        let rest = positions_below(bitmap, m);
        let all = positions_below(bitmap, n);
        if bit_set(bitmap, n - 1) {
            let last = m as u8;
            assert(all == rest.push(last));
            assert forall|p: u8| all.contains(p) <==> (p < n && bit_set(bitmap, p as int)) by {
                if all.contains(p) {
                    let i = choose|i: int| 0 <= i < all.len() && all[i] == p;
                    if i < rest.len() {
                        assert(rest[i] == p);
                        assert(rest.contains(p));
                    }
                }
                if p < n && bit_set(bitmap, p as int) {
                    if p == last {
                        assert(all[rest.len() as int] == p);
                    } else {
                        assert(rest.contains(p));
                        let i = choose|i: int| 0 <= i < rest.len() && rest[i] == p;
                        assert(all[i] == p);
                    }
                }
            }
        } else {
            assert(all == rest);
        }
    }
}

/// Bit `j` of the bitmap of a list is set exactly if the list holds `j`.
pub proof fn lemma_bitmap_of_bits(ps: Seq<u8>, j: int)
    requires
        forall|i: int| 0 <= i < ps.len() ==> (#[trigger] ps[i]) < 16,
        0 <= j < 16,
    ensures
        bit_set(bitmap_of(ps), j) <==> ps.contains(j as u8),
    decreases ps.len(),
{
    if ps.len() == 0 {
        lemma_bit_of_zero(j as u16);
    } else {
        let rest = ps.drop_last();
        let last = ps.last();
        lemma_bitmap_of_bits(rest, j);
        lemma_bit_of_or(bitmap_of(rest), last as u16, j as u16);
        if ps.contains(j as u8) {
            let i = choose|i: int| 0 <= i < ps.len() && ps[i] == j as u8;
            if i < rest.len() {
                assert(rest[i] == j as u8);
                assert(rest.contains(j as u8));
            }
        }
        if rest.contains(j as u8) {
            let i = choose|i: int| 0 <= i < rest.len() && rest[i] == j as u8;
            assert(ps[i] == j as u8);
        }
        if last == j as u8 {
            assert(ps[ps.len() - 1] == j as u8);
        }
    }
}

/// Two ascending lists that hold the same positions are the same list.
pub proof fn lemma_ascending_unique(a: Seq<u8>, b: Seq<u8>)
    requires
        ascending_below(a, 256),
        ascending_below(b, 256),
        forall|p: u8| a.contains(p) <==> b.contains(p),
    ensures
        a == b,
    decreases a.len() + b.len(),
{
    if a.len() == 0 {
        if b.len() > 0 {
            assert(b.contains(b[0]));
            assert(a.contains(b[0]));
        }
        assert(a =~= b);
    } else if b.len() == 0 {
        assert(a.contains(a[0]));
        assert(b.contains(a[0]));
    } else {
        let la = a.last();
        let lb = b.last();
        assert(a.contains(la)) by {
            assert(a[a.len() - 1] == la);
        }
        assert(b.contains(lb)) by {
            assert(b[b.len() - 1] == lb);
        }
        assert(b.contains(la));
        assert(a.contains(lb));
        let ia = choose|i: int| 0 <= i < a.len() && a[i] == lb;
        let ib = choose|i: int| 0 <= i < b.len() && b[i] == la;
        assert(lb <= la);
        assert(la <= lb);
        let ra = a.drop_last();
        let rb = b.drop_last();
        assert forall|p: u8| ra.contains(p) <==> rb.contains(p) by {
            if ra.contains(p) {
                let i = choose|i: int| 0 <= i < ra.len() && ra[i] == p;
                assert(a[i] == p);
                assert(a.contains(p));
                assert(p < la);
                let k = choose|k: int| 0 <= k < b.len() && b[k] == p;
                assert(k < rb.len());
                assert(rb[k] == p);
            }
            if rb.contains(p) {
                let i = choose|i: int| 0 <= i < rb.len() && rb[i] == p;
                assert(b[i] == p);
                assert(b.contains(p));
                assert(p < lb);
                let k = choose|k: int| 0 <= k < a.len() && a[k] == p;
                assert(k < ra.len());
                assert(ra[k] == p);
            }
        }
        lemma_ascending_unique(ra, rb);
        assert(a =~= ra.push(la));
        assert(b =~= rb.push(lb));
    }
}

/// The positions that the bitmap of an ascending list names are the list.
pub proof fn lemma_positions_of_bitmap(ps: Seq<u8>)
    requires
        ascending_below(ps, 16),
    ensures
        positions(bitmap_of(ps)) == ps,
{
    let bitmap = bitmap_of(ps);
    lemma_positions_below(bitmap, 16);
    let qs = positions(bitmap);
    assert forall|p: u8| qs.contains(p) <==> ps.contains(p) by {
        if p < 16 {
            lemma_bitmap_of_bits(ps, p as int);
        } else if ps.contains(p) {
            let i = choose|i: int| 0 <= i < ps.len() && ps[i] == p;
            assert(ps[i] < 16);
        }
    }
    lemma_ascending_unique(qs, ps);
}

/// The bitmap of the positions that a bitmap names is that bitmap.
pub proof fn lemma_bitmap_of_positions(bitmap: u16)
    ensures
        bitmap_of(positions(bitmap)) == bitmap,
        ascending_below(positions(bitmap), 16),
{
    lemma_positions_below(bitmap, 16);
    let ps = positions(bitmap);
    assert forall|i: int| 0 <= i < 16 implies (bit_set(bitmap_of(ps), i) <==> bit_set(bitmap, i)) by {
        lemma_bitmap_of_bits(ps, i);
    }
    lemma_bits_determine(bitmap_of(ps), bitmap);
}

/// The positions that a bitmap names, in ascending order.
pub fn positions_of(bitmap: u16) -> (ps: Vec<u8>)
    ensures
        ps@ == positions(bitmap),
        ascending_below(ps@, 16),
        ps@.len() <= 16,
{
    let mut ps: Vec<u8> = Vec::new();
    let mut i: u8 = 0;
    while i < 16
        invariant
            i <= 16,
            ps@ == positions_below(bitmap, i as nat),
        decreases 16 - i,
    {
        if (bitmap >> (i as u16)) & 1 == 1 {
            ps.push(i);
        }
        i += 1;
    }
    proof {
        lemma_positions_below(bitmap, 16);
    }
    ps
}

/// The bitmap that names the positions of a list.
pub fn bitmap_from(ps: &[u8]) -> (bitmap: u16)
    requires
        forall|i: int| 0 <= i < ps@.len() ==> (#[trigger] ps@[i]) < 16,
    ensures
        bitmap == bitmap_of(ps@),
{
    let mut bitmap: u16 = 0;
    let mut i: usize = 0;
    while i < ps.len()
        invariant
            i <= ps@.len(),
            forall|k: int| 0 <= k < ps@.len() ==> (#[trigger] ps@[k]) < 16,
            bitmap == bitmap_of(ps@.take(i as int)),
        decreases ps@.len() - i,
    {
        proof {
            assert(ps@.take(i + 1).drop_last() =~= ps@.take(i as int));
            assert(ps@.take(i + 1).last() == ps@[i as int]);
        }
        bitmap = bitmap | (1u16 << (ps[i] as u16));
        i += 1;
    }
    assert(ps@.take(ps@.len() as int) =~= ps@);
    bitmap
}

} // verus!
