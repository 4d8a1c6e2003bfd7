//! The per-side position ledger: aggregate-size arithmetic over a FIFO
//! sequence of positions.

use vstd::prelude::*;

use crate::math::Side;
use crate::position::Position;

verus! {

/// Sum of the sizes of every position in the sequence.
pub open spec fn sum_sizes(s: Seq<Position>) -> int
    decreases s.len(),
{
    if s.len() == 0 {
        0
    } else {
        sum_sizes(s.drop_last()) + s.last().size
    }
}

/// Every position of a side's sequence is well formed and carries that
/// side's tag.
pub open spec fn side_positions_wf(s: Seq<Position>, side: Side) -> bool {
    forall|i: int| 0 <= i < s.len() ==> (#[trigger] s[i]).wf() && s[i].side == side
}

/// The aggregate size is never negative.
pub proof fn lemma_sum_sizes_nonneg(s: Seq<Position>)
    ensures
        sum_sizes(s) >= 0,
    decreases s.len(),
{
    if s.len() > 0 {
        lemma_sum_sizes_nonneg(s.drop_last());
    }
}

/// Appending a position adds exactly its size to the aggregate.
pub proof fn lemma_sum_sizes_push(s: Seq<Position>, p: Position)
    ensures
        sum_sizes(s.push(p)) == sum_sizes(s) + p.size,
{
    assert(s.push(p).drop_last() =~= s);
    assert(s.push(p).last() == p);
}

/// Extending a prefix by one element adds exactly that element's size.
pub proof fn lemma_sum_sizes_prefix(s: Seq<Position>, i: int)
    requires
        0 <= i < s.len(),
    ensures
        sum_sizes(s.take(i + 1)) == sum_sizes(s.take(i)) + s[i].size,
{
    assert(s.take(i + 1).drop_last() =~= s.take(i));
    assert(s.take(i + 1).last() == s[i]);
}

/// A prefix never sums to more than the whole sequence.
pub proof fn lemma_sum_sizes_prefix_le(s: Seq<Position>, i: int)
    requires
        0 <= i <= s.len(),
    ensures
        sum_sizes(s.take(i)) <= sum_sizes(s),
    decreases s.len(),
{
    if i == s.len() {
        assert(s.take(i) =~= s);
    } else {
        lemma_sum_sizes_prefix_le(s.drop_last(), i);
        assert(s.drop_last().take(i) =~= s.take(i));
    }
}

/// Removing the position at `i` subtracts exactly its size.
pub proof fn lemma_sum_sizes_remove(s: Seq<Position>, i: int)
    requires
        0 <= i < s.len(),
    ensures
        sum_sizes(s.remove(i)) == sum_sizes(s) - s[i].size,
    decreases s.len(),
{
    if i == s.len() - 1 {
        assert(s.remove(i) =~= s.drop_last());
    } else {
        assert(s.remove(i).drop_last() =~= s.drop_last().remove(i));
        assert(s.remove(i).last() == s.last());
        lemma_sum_sizes_remove(s.drop_last(), i);
    }
}

/// Two sequences whose positions agree pointwise in size have the same
/// aggregate size.
pub proof fn lemma_sum_sizes_same_sizes(a: Seq<Position>, b: Seq<Position>)
    requires
        a.len() == b.len(),
        forall|i: int| 0 <= i < a.len() ==> (#[trigger] a[i]).size == b[i].size,
    ensures
        sum_sizes(a) == sum_sizes(b),
    decreases a.len(),
{
    if a.len() > 0 {
        lemma_sum_sizes_same_sizes(a.drop_last(), b.drop_last());
    }
}

} // verus!
