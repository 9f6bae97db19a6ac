//! The work partitioner: split a total mine count over the grid's columns,
//! visiting the columns in random order, so that every column's share fits in
//! its rows and the shares sum exactly to the total; and the batch planner
//! that cuts such a work list into contiguous slices for parallel dispatch.

use vstd::prelude::*;

use crate::counting::{lemma_sum_counts_push, sum_counts};
use crate::rng::{fresh_small_rng, rng_below};
use crate::sampler::{lemma_swap_removed, pick_random, swap_removed};

verus! {

/// Whether the work list assigns some mine count to column `c`.
pub open spec fn has_col(s: Seq<(usize, usize)>, c: usize) -> bool {
    exists|j: int| 0 <= j < s.len() && s[j].0 == c
}

pub proof fn lemma_has_col_push(s: Seq<(usize, usize)>, p: (usize, usize), c: usize)
    ensures
        has_col(s.push(p), c) <==> (has_col(s, c) || p.0 == c),
{
    let t = s.push(p);
    if has_col(s, c) {
        let j = choose|j: int| 0 <= j < s.len() && s[j].0 == c;
        assert(t[j].0 == c);
    }
    if p.0 == c {
        assert(t[s.len() as int].0 == c);
    }
    if has_col(t, c) {
        let j = choose|j: int| 0 <= j < t.len() && t[j].0 == c;
        if j < s.len() {
            assert(s[j].0 == c);
        }
    }
}

/// Randomly and feasibly split `mines_n` over `width` columns of `height`
/// rows each: the result names every column exactly once, in random order,
/// gives each a mine count that fits its rows, and the counts sum exactly to
/// `mines_n`. A candidate share is drawn at random, clamped to the column's
/// capacity, and corrected upward to the full column whenever a smaller share
/// would leave more mines than the remaining columns can absorb.
pub fn partition_work(width: usize, height: usize, mines_n: usize) -> (r: Vec<(usize, usize)>)
    requires
        mines_n <= width * height,
        width * height <= usize::MAX,
    ensures
        r@.len() == width,
        forall|j: int| 0 <= j < r@.len() ==> (#[trigger] r@[j]).0 < width && r@[j].1 <= height,
        forall|j1: int, j2: int| 0 <= j1 < j2 < r@.len() ==> r@[j1].0 != r@[j2].0,
        forall|c: usize| c < width ==> has_col(r@, c),
        sum_counts(r@) == mines_n,
{
    let mut work: Vec<(usize, usize)> = Vec::new();
    if width == 0 {
        return work;
    }
    let mut rng = fresh_small_rng();
    let mut cols: Vec<usize> = Vec::new();
    let mut i: usize = 0;
    while i < width
        invariant
            i <= width,
            cols@.len() == i,
            forall|k: int| 0 <= k < i ==> cols@[k] == k,
        decreases width - i,
    {
        cols.push(i);
        i += 1;
    }
    proof {
        assert forall|x: usize| #[trigger] cols@.contains(x) implies x < width by {
            let k = choose|k: int| 0 <= k < cols@.len() && cols@[k] == x;
        }
        assert forall|c: usize| c < width implies cols@.contains(c) by {
            assert(cols@[c as int] == c);
        }
    }
    let mut remaining_mines: usize = mines_n;
    let mut col_counter: usize = 0;
    while col_counter < width
        invariant
            1 <= width,
            mines_n <= width * height,
            width * height <= usize::MAX,
            col_counter <= width,
            work@.len() == col_counter,
            cols@.len() == width - col_counter,
            cols@.no_duplicates(),
            forall|x: usize| #[trigger] cols@.contains(x) ==> x < width,
            forall|c: usize| c < width ==> (cols@.contains(c) <==> !has_col(work@, c)),
            forall|j: int| 0 <= j < work@.len() ==> (#[trigger] work@[j]).0 < width
                && work@[j].1 <= height,
            forall|j1: int, j2: int| 0 <= j1 < j2 < work@.len() ==> work@[j1].0 != work@[j2].0,
            sum_counts(work@) == mines_n - remaining_mines,
            remaining_mines <= (width - col_counter) * height,
        decreases width - col_counter,
    {
        let ghost pool = cols@;
        let ghost prev_work = work@;
        let picked = pick_random(&mut rng, &mut cols);
        let x = picked.unwrap();
        proof {
            let i = choose|i: int|
                0 <= i < pool.len() && x == pool[i] && cols@ == swap_removed(pool, i);
            lemma_swap_removed(pool, i);
            assert(pool.contains(x));
        }
        proof {
            if col_counter == width - 1 {
                assert(remaining_mines <= height) by (nonlinear_arith)
                    requires
                        remaining_mines <= (width - col_counter) * height,
                        col_counter == width - 1,
                ;
            }
        }
        let col_mines: usize = if col_counter != width - 1 {
            let possible_mines: usize = if remaining_mines == 0 {
                0
            } else {
                rng_below(&mut rng, remaining_mines)
            };
            if possible_mines > height {
                height
            } else {
                possible_mines
            }
        } else {
            remaining_mines
        };
        let possible_remaining_mines = remaining_mines - col_mines;

        let remaining_cols = width - 1 - col_counter;
        proof {
            assert((width - 1 - col_counter) * height <= width * height) by (nonlinear_arith)
                requires
                    0 <= col_counter < width,
                    0 <= height,
            ;
        }
        let remaining_slots = remaining_cols * height;
        let col_mines = if possible_remaining_mines > remaining_slots {
            proof {
                // only reachable before the last column, where at least one
                // further column is left, so its full capacity fits in what
                // is still owed
                assert(height <= (width - 1 - col_counter) * height) by (nonlinear_arith)
                    requires
                        1 <= width - 1 - col_counter,
                        0 <= height,
                ;
            }
            height
        } else {
            col_mines
        };
        proof {
            assert((width - col_counter) * height == (width - 1 - col_counter) * height + height)
                by (nonlinear_arith)
                requires
                    0 <= col_counter < width,
            ;
            lemma_sum_counts_push(prev_work, (x, col_mines));
            lemma_has_col_push(prev_work, (x, col_mines), x);
            assert(x < width);
            assert(col_mines <= height);
            assert forall|j: int| 0 <= j < prev_work.push((x, col_mines)).len() implies (
            #[trigger] prev_work.push((x, col_mines))[j]).0 < width && prev_work.push(
                (x, col_mines),
            )[j].1 <= height by {
                if j < prev_work.len() {
                    assert(prev_work.push((x, col_mines))[j] == prev_work[j]);
                }
            }
            assert forall|c: usize| c < width implies (cols@.contains(c) <==> !has_col(
                prev_work.push((x, col_mines)),
                c,
            )) by {
                lemma_has_col_push(prev_work, (x, col_mines), c);
                assert(pool.contains(c) <==> !has_col(prev_work, c));
            }
            assert forall|j1: int, j2: int|
                0 <= j1 < j2 < prev_work.push((x, col_mines)).len() implies prev_work.push(
                (x, col_mines),
            )[j1].0 != prev_work.push((x, col_mines))[j2].0 by {
                if j2 == prev_work.len() {
                    assert(!has_col(prev_work, x));
                    assert(prev_work.push((x, col_mines))[j1] == prev_work[j1]);
                }
            }
        }
        col_counter += 1;
        remaining_mines -= col_mines;
        work.push((x, col_mines));
    }
    proof {
        assert forall|c: usize| c < width implies has_col(work@, c) by {
            assert(!cols@.contains(c));
        }
        assert(remaining_mines <= 0) by (nonlinear_arith)
            requires
                remaining_mines <= (width - col_counter) * height,
                col_counter == width,
        ;
    }
    work
}

/// Relies on `num_integer::div_ceil` on unsigned operands: a floored division
/// plus one when a remainder is left, so the result is the ceiling of `a / b`.
/// It panics only when the divisor is zero.
#[verifier::external_body]
fn ceil_div(a: usize, b: usize) -> (r: usize)
    requires
        b >= 1,
    ensures
        a == 0 ==> r == 0,
        a > 0 ==> (r - 1) * b < a <= r * b,
{
    num_integer::div_ceil(a, b)
}

/// Cut the index range `0..n_items` into at most `workers` contiguous,
/// non-empty batches that cover it exactly, each holding a ceiling-division
/// share of the items, so that every worker gets one batch.
pub fn plan_batches(n_items: usize, workers: usize) -> (r: Vec<(usize, usize)>)
    requires
        workers >= 1,
    ensures
        r@.len() <= workers,
        n_items == 0 ==> r@.len() == 0,
        n_items > 0 ==> r@.len() >= 1 && r@[0].0 == 0 && r@[r@.len() - 1].1 == n_items,
        forall|j: int| 0 <= j < r@.len() ==> (#[trigger] r@[j]).0 < r@[j].1 <= n_items,
        forall|j: int| 1 <= j < r@.len() ==> (#[trigger] r@[j]).0 == r@[j - 1].1,
{
    let mut batches: Vec<(usize, usize)> = Vec::new();
    if n_items == 0 {
        return batches;
    }
    let per = ceil_div(n_items, workers);
    proof {
        assert(per >= 1) by (nonlinear_arith)
            requires
                n_items > 0,
                n_items <= per * workers,
        ;
        assert(0int * per == 0) by (nonlinear_arith);
    }
    let mut start: usize = 0;
    while start < n_items
        invariant
            1 <= n_items,
            1 <= workers,
            1 <= per,
            n_items <= per * workers,
            start <= n_items,
            start == batches@.len() * per || start == n_items,
            batches@.len() == 0 ==> start == 0,
            batches@.len() >= 1 ==> (batches@.len() - 1) * per < start,
            batches@.len() >= 1 ==> batches@[0].0 == 0 && batches@[batches@.len() - 1].1
                == start,
            forall|j: int| 0 <= j < batches@.len() ==> (#[trigger] batches@[j]).0
                < batches@[j].1 <= n_items,
            forall|j: int| 1 <= j < batches@.len() ==> (#[trigger] batches@[j]).0
                == batches@[j - 1].1,
        decreases n_items - start,
    {
        let ghost old_len = batches@.len() as int;
        let end = if n_items - start > per {
            start + per
        } else {
            n_items
        };
        batches.push((start, end));
        proof {
            assert((old_len + 1) * per == old_len * per + per) by (nonlinear_arith);
        }
        start = end;
    }
    proof {
        let len = batches@.len() as int;
        if start == len * per {
            assert(len <= workers) by (nonlinear_arith)
                requires
                    len * per == start,
                    start <= per * workers,
                    per >= 1,
                    len >= 0,
                    workers >= 0,
            ;
        } else {
            assert(len <= workers) by (nonlinear_arith)
                requires
                    len >= 1,
                    (len - 1) * per < start,
                    start <= per * workers,
                    per >= 1,
                    workers >= 0,
            ;
        }
    }
    batches
}

} // verus!
