//! Rollback synthesizer: derives the raw event whose decoded meaning is the
//! inverse of an observed row-mutation event.
//!
//! Insert and Delete invert by rewriting only the type code byte in the
//! header; the payload bytes stay untouched, so re-decoding yields the same
//! row image, rendered as the opposite statement.  An Update inverts at the
//! consumption level: its decoded images are consumed with every
//! before/after pair swapped, so the WHERE clause matches the post-image and
//! the SET clause restores the pre-image.

use vstd::prelude::*;
use crate::binlog::parsevalue::{MySQLValue, ValueModel};

verus! {

/// The type code byte of the inverse event: the Write and Delete codes
/// swap; every other code is kept.
pub open spec fn spec_rollback_code(c: u8) -> u8 {
    if c == 30 {
        32
    } else if c == 32 {
        30
    } else {
        c
    }
}

/// The inverse raw event buffer: byte 4 (the header's type code) rewritten,
/// every other byte kept.
pub open spec fn spec_rollback(b: Seq<u8>) -> Seq<u8> {
    b.update(4, spec_rollback_code(b[4]))
}

/// Double inversion is identity: rewriting the type code byte twice
/// restores the original buffer, byte for byte.
pub proof fn lemma_rollback_involutive(b: Seq<u8>)
    requires
        b.len() >= 5,
    ensures
        spec_rollback(spec_rollback(b)) == b,
{
    assert(spec_rollback(spec_rollback(b)) =~= b);
}

/// Produce the inverse raw event for a row-mutation event: the captured
/// header+payload bytes with only the type code byte rewritten.
pub fn rollback_row_event(buf: &Vec<u8>) -> (r: Vec<u8>)
    requires
        buf@.len() >= 19,
    ensures
        r@ == spec_rollback(buf@),
{
    let n = buf.len();
    let mut r: Vec<u8> = Vec::new();
    for i in 0..n
        invariant
            n == buf@.len(),
            n >= 19,
            r@.len() == i,
            forall|j: int| 0 <= j < i ==> r@[j] == spec_rollback(buf@)[j],
    {
        let b = buf[i];
        let out: u8 = if i == 4 {
            if b == 30 {
                32
            } else if b == 32 {
                30
            } else {
                b
            }
        } else {
            b
        };
        r.push(out);
    }
    proof {
        assert(r@ =~= spec_rollback(buf@));
    }
    r
}

/// Swap each consecutive before/after pair of a sequence; an unpaired
/// trailing element is kept in place.
pub open spec fn spec_swap_pairs<T>(s: Seq<T>) -> Seq<T>
    decreases s.len(),
{
    if s.len() >= 2 {
        seq![s[1], s[0]] + spec_swap_pairs(s.skip(2))
    } else {
        s
    }
}

/// Swapping the pairs twice restores the original order.
pub proof fn lemma_swap_pairs_involutive<T>(s: Seq<T>)
    ensures
        spec_swap_pairs(spec_swap_pairs(s)) == s,
    decreases s.len(),
{
    if s.len() >= 2 {
        lemma_swap_pairs_involutive(s.skip(2));
        assert((seq![s[1], s[0]] + spec_swap_pairs(s.skip(2))).skip(2) =~= spec_swap_pairs(
            s.skip(2),
        ));
        assert(spec_swap_pairs(spec_swap_pairs(s)) =~= s);
    }
}

/// Swap each consecutive before/after image pair of an Update row list, so
/// the stored "after" half is consumed as "before" and vice versa.
pub fn swap_pairs(rows: Vec<Vec<Option<MySQLValue>>>) -> (r: Vec<Vec<Option<MySQLValue>>>)
    ensures
        r.deep_view() == spec_swap_pairs(rows.deep_view()),
{
    let ghost orig = rows.deep_view();
    let mut rest = rows;
    let mut out: Vec<Vec<Option<MySQLValue>>> = Vec::new();
    proof {
        assert(out.deep_view() + spec_swap_pairs(rest.deep_view()) =~= spec_swap_pairs(orig));
    }
    while rest.len() >= 2
        invariant
            spec_swap_pairs(orig) == out.deep_view() + spec_swap_pairs(rest.deep_view()),
        decreases rest.len(),
    {
        let ghost before = rest.deep_view();
        let ghost outbefore = out.deep_view();
        let a = rest.remove(0);
        let ghost mid = rest.deep_view();
        let b = rest.remove(0);
        let ghost am = a.deep_view();
        let ghost bm = b.deep_view();
        out.push(b);
        out.push(a);
        proof {
            assert(mid =~= before.skip(1));
            assert(rest.deep_view() =~= before.skip(2));
            assert(am == before[0]);
            assert(bm == before[1]);
            assert(out.deep_view() =~= outbefore + seq![bm, am]);
            assert(outbefore + (seq![before[1], before[0]] + spec_swap_pairs(before.skip(2)))
                =~= (outbefore + seq![bm, am]) + spec_swap_pairs(before.skip(2)));
        }
    }
    if rest.len() == 1 {
        let ghost before = rest.deep_view();
        let ghost outbefore = out.deep_view();
        let a = rest.remove(0);
        out.push(a);
        proof {
            assert(spec_swap_pairs(before) == before);
            assert(out.deep_view() =~= outbefore + before);
        }
    } else {
        proof {
            assert(spec_swap_pairs(rest.deep_view()) =~= rest.deep_view());
            assert(out.deep_view() + rest.deep_view() =~= out.deep_view());
        }
    }
    out
}

/// Swapping pairs keeps the length, and keeps every element's own length
/// when all elements share one.
pub proof fn lemma_swap_pairs_lens(s: Seq<Seq<Option<ValueModel>>>, l: nat)
    requires
        forall|j: int| 0 <= j < s.len() ==> (#[trigger] s[j]).len() == l,
    ensures
        spec_swap_pairs(s).len() == s.len(),
        forall|k: int|
            0 <= k < spec_swap_pairs(s).len() ==> (#[trigger] spec_swap_pairs(s)[k]).len() == l,
    decreases s.len(),
{
    if s.len() >= 2 {
        assert(forall|j: int| 0 <= j < s.skip(2).len() ==> #[trigger] s.skip(2)[j] == s[j + 2]);
        lemma_swap_pairs_lens(s.skip(2), l);
    }
}

} // verus!
