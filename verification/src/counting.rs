//! Spec-level counting of mines: how many cells of a column are `true`, and
//! how many are `true` over a whole grid, together with the lemmas the
//! samplers need to track those counts through their loops.

use vstd::prelude::*;

verus! {

/// Number of `true` entries in one column.
pub open spec fn count_true(s: Seq<bool>) -> int
    decreases s.len(),
{
    if s.len() == 0 {
        0
    } else {
        count_true(s.drop_last()) + if s.last() {
            1int
        } else {
            0int
        }
    }
}

/// Number of `true` entries over all columns of a grid.
pub open spec fn total_true(g: Seq<Seq<bool>>) -> int
    decreases g.len(),
{
    if g.len() == 0 {
        0
    } else {
        total_true(g.drop_last()) + count_true(g.last())
    }
}

/// Sum of the per-column mine targets of a work list of
/// `(column_index, mine_count)` pairs.
pub open spec fn sum_counts(s: Seq<(usize, usize)>) -> int
    decreases s.len(),
{
    if s.len() == 0 {
        0
    } else {
        sum_counts(s.drop_last()) + s.last().1
    }
}

pub proof fn lemma_count_true_bounds(s: Seq<bool>)
    ensures
        0 <= count_true(s) <= s.len(),
    decreases s.len(),
{
    if s.len() > 0 {
        lemma_count_true_bounds(s.drop_last());
    }
}

pub proof fn lemma_count_true_all_false(s: Seq<bool>)
    requires
        forall|i: int| 0 <= i < s.len() ==> !s[i],
    ensures
        count_true(s) == 0,
    decreases s.len(),
{
    if s.len() > 0 {
        lemma_count_true_all_false(s.drop_last());
    }
}

/// Marking one `false` cell `true` raises the count by exactly one.
pub proof fn lemma_count_true_set_true(s: Seq<bool>, i: int)
    requires
        0 <= i < s.len(),
        !s[i],
    ensures
        count_true(s.update(i, true)) == count_true(s) + 1,
    decreases s.len(),
{
    let t = s.update(i, true);
    if i == s.len() - 1 {
        assert(t.drop_last() =~= s.drop_last());
    } else {
        assert(t.drop_last() =~= s.drop_last().update(i, true));
        lemma_count_true_set_true(s.drop_last(), i);
    }
}

pub proof fn lemma_count_true_append(a: Seq<bool>, b: Seq<bool>)
    ensures
        count_true(a + b) == count_true(a) + count_true(b),
    decreases b.len(),
{
    if b.len() == 0 {
        assert(a + b =~= a);
    } else {
        assert((a + b).drop_last() =~= a + b.drop_last());
        lemma_count_true_append(a, b.drop_last());
    }
}

pub proof fn lemma_total_true_push(g: Seq<Seq<bool>>, col: Seq<bool>)
    ensures
        total_true(g.push(col)) == total_true(g) + count_true(col),
{
    assert(g.push(col).drop_last() =~= g);
}

/// Replacing one column changes the grid total by the difference of the two
/// column counts.
pub proof fn lemma_total_true_update(g: Seq<Seq<bool>>, i: int, col: Seq<bool>)
    requires
        0 <= i < g.len(),
    ensures
        total_true(g.update(i, col)) == total_true(g) - count_true(g[i]) + count_true(col),
    decreases g.len(),
{
    let t = g.update(i, col);
    if i == g.len() - 1 {
        assert(t.drop_last() =~= g.drop_last());
    } else {
        assert(t.drop_last() =~= g.drop_last().update(i, col));
        lemma_total_true_update(g.drop_last(), i, col);
    }
}

pub proof fn lemma_sum_counts_push(s: Seq<(usize, usize)>, p: (usize, usize))
    ensures
        sum_counts(s.push(p)) == sum_counts(s) + p.1,
{
    assert(s.push(p).drop_last() =~= s);
}

} // verus!
