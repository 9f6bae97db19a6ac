//! The grid orchestrator: the public entry point that checks capacity, picks
//! a strategy by the mine-count threshold, and assembles the final grid of
//! `width` columns by `height` rows.

use vstd::prelude::*;

use crate::counting::{
    count_true, lemma_count_true_append, lemma_count_true_bounds, lemma_total_true_push,
    lemma_total_true_update, sum_counts, total_true,
};
use crate::partition::{has_col, partition_work};
use crate::sampler::get_mines;
use crate::MinesOverflowError;

verus! {

/// Mine counts above this take the partitioned strategy, fit for batched
/// parallel dispatch; at or below it the whole grid is sampled as one flat
/// pool.
pub const MINES_THRESHOLD: usize = 10000;

/// The columns of a grid, each as a mathematical sequence.
pub open spec fn grid_view(g: Seq<Vec<bool>>) -> Seq<Seq<bool>> {
    Seq::new(g.len(), |i: int| g[i]@)
}

/// What a successful placement returns: `width` columns of `height` cells
/// each, holding exactly `mines_n` mines in all.
pub open spec fn valid_grid(g: Seq<Seq<bool>>, width: int, height: int, mines_n: int) -> bool {
    &&& g.len() == width
    &&& forall|i: int| 0 <= i < width ==> (#[trigger] g[i]).len() == height
    &&& total_true(g) == mines_n
}

/// Law: in a well-formed grid every column's mine count lies between zero and
/// the column's height, whichever strategy built it.
pub proof fn lemma_column_capacity(g: Seq<Seq<bool>>, width: int, height: int, mines_n: int)
    requires
        valid_grid(g, width, height, mines_n),
    ensures
        forall|i: int| 0 <= i < width ==> 0 <= count_true(#[trigger] g[i]) <= height,
{
    assert forall|i: int| 0 <= i < width implies 0 <= count_true(#[trigger] g[i]) <= height by {
        lemma_count_true_bounds(g[i]);
    }
}

/// Law: which strategy ran cannot be observed in the outcome's shape — any
/// two successful placements for the same inputs, whether the flat or the
/// partitioned strategy produced them, agree on the column count, on every
/// column's height, and on the total number of mines.
pub proof fn lemma_path_equivalence(
    g1: Seq<Seq<bool>>,
    g2: Seq<Seq<bool>>,
    width: int,
    height: int,
    mines_n: int,
)
    requires
        valid_grid(g1, width, height, mines_n),
        valid_grid(g2, width, height, mines_n),
    ensures
        g1.len() == g2.len(),
        forall|i: int| 0 <= i < g1.len() ==> (#[trigger] g1[i]).len() == g2[i].len(),
        total_true(g1) == total_true(g2),
{
}

/// Run the column mine sampler for every `(column_index, mine_count)` item of
/// a batch, keeping the batch's order. Fails if and only if some item asks
/// for more mines than a column holds.
pub fn sample_columns(work: &Vec<(usize, usize)>, height: usize) -> (r: Result<
    Vec<(usize, Vec<bool>)>,
    MinesOverflowError,
>)
    ensures
        r is Err <==> exists|j: int| 0 <= j < work@.len() && (#[trigger] work@[j]).1 > height,
        r is Ok ==> r->Ok_0@.len() == work@.len() && forall|j: int|
            0 <= j < work@.len() ==> (#[trigger] r->Ok_0@[j]).0 == work@[j].0
                && r->Ok_0@[j].1@.len() == height && count_true(r->Ok_0@[j].1@) == work@[j].1,
{
    let mut out: Vec<(usize, Vec<bool>)> = Vec::new();
    let mut j: usize = 0;
    while j < work.len()
        invariant
            j <= work@.len(),
            out@.len() == j,
            forall|k: int| 0 <= k < j ==> (#[trigger] work@[k]).1 <= height,
            forall|k: int| 0 <= k < j ==> (#[trigger] out@[k]).0 == work@[k].0
                && out@[k].1@.len() == height && count_true(out@[k].1@) == work@[k].1,
        decreases work@.len() - j,
    {
        let pair = work[j];
        match get_mines(pair.1, height) {
            Ok(col) => {
                out.push((pair.0, col));
            },
            Err(e) => {
                return Err(e);
            },
        }
        j += 1;
    }
    Ok(out)
}

/// The single-threaded strategy: sample the mine positions from one flat pool
/// of all `width * height` cells, then fold the flat column-major vector back
/// into per-column vectors.
pub fn get_grid_flat(width: usize, height: usize, mines_n: usize) -> (r: Result<
    Vec<Vec<bool>>,
    MinesOverflowError,
>)
    requires
        width * height <= usize::MAX,
    ensures
        r is Err <==> mines_n > width * height,
        r is Ok ==> valid_grid(grid_view(r->Ok_0@), width as int, height as int, mines_n as int),
{
    let cells = width * height;
    if mines_n > cells {
        return Err(MinesOverflowError);
    }
    let flat = match get_mines(mines_n, cells) {
        Ok(v) => v,
        Err(e) => {
            proof {
                assert(false);
            }
            return Err(e);
        },
    };
    let mut grid: Vec<Vec<bool>> = Vec::new();
    let mut x: usize = 0;
    while x < width
        invariant
            x <= width,
            width * height <= usize::MAX,
            flat@.len() == width * height,
            grid@.len() == x,
            forall|i: int| 0 <= i < x ==> grid_view(grid@)[i].len() == height,
            total_true(grid_view(grid@)) == count_true(flat@.take(x as int * height as int)),
        decreases width - x,
    {
        proof {
            assert(x as int * height as int + height <= width as int * height as int)
                by (nonlinear_arith)
                requires
                    x < width,
                    0 <= height,
            ;
        }
        let base = x * height;
        let mut col: Vec<bool> = Vec::new();
        let mut y: usize = 0;
        while y < height
            invariant
                y <= height,
                base + height <= flat@.len(),
                flat@.len() <= usize::MAX,
                col@.len() == y,
                forall|k: int| 0 <= k < y ==> col@[k] == flat@[base + k],
            decreases height - y,
        {
            col.push(flat[base + y]);
            y += 1;
        }
        proof {
            let b = base as int;
            let h = height as int;
            assert(col@ =~= flat@.subrange(b, b + h));
            assert(flat@.take(b + h) =~= flat@.take(b) + flat@.subrange(b, b + h));
            lemma_count_true_append(flat@.take(b), flat@.subrange(b, b + h));
            lemma_total_true_push(grid_view(grid@), col@);
        }
        let ghost prev = grid@;
        grid.push(col);
        proof {
            assert(grid_view(grid@) =~= grid_view(prev).push(col@));
            assert((x + 1) as int * height as int == x as int * height as int + height)
                by (nonlinear_arith);
        }
        x += 1;
    }
    proof {
        assert(flat@.take(width as int * height as int) =~= flat@);
    }
    Ok(grid)
}

/// The partitioned strategy: split the mine total over the columns with the
/// work partitioner, then sample each column for its assigned count and write
/// it into the grid at its column index.
pub fn get_grid_partitioned(width: usize, height: usize, mines_n: usize) -> (r: Result<
    Vec<Vec<bool>>,
    MinesOverflowError,
>)
    requires
        width * height <= usize::MAX,
    ensures
        r is Err <==> mines_n > width * height,
        r is Ok ==> valid_grid(grid_view(r->Ok_0@), width as int, height as int, mines_n as int),
{
    let cells = width * height;
    if mines_n > cells {
        return Err(MinesOverflowError);
    }
    let work = partition_work(width, height, mines_n);
    let mut grid: Vec<Vec<bool>> = Vec::new();
    let mut i: usize = 0;
    while i < width
        invariant
            i <= width,
            grid@.len() == i,
            forall|k: int| 0 <= k < i ==> grid_view(grid@)[k].len() == 0,
            total_true(grid_view(grid@)) == 0,
        decreases width - i,
    {
        proof {
            lemma_total_true_push(grid_view(grid@), Seq::empty());
        }
        let ghost prev = grid@;
        grid.push(Vec::new());
        proof {
            assert(grid_view(grid@) =~= grid_view(prev).push(Seq::empty()));
        }
        i += 1;
    }
    let mut j: usize = 0;
    while j < work.len()
        invariant
            j <= work@.len(),
            work@.len() == width,
            forall|k: int| 0 <= k < work@.len() ==> (#[trigger] work@[k]).0 < width
                && work@[k].1 <= height,
            forall|k1: int, k2: int| 0 <= k1 < k2 < work@.len() ==> work@[k1].0 != work@[k2].0,
            sum_counts(work@) == mines_n,
            forall|c: usize| c < width ==> has_col(work@, c),
            grid@.len() == width,
            forall|c: usize| c < width ==> (has_col(work@.take(j as int), c)
                ==> grid_view(grid@)[c as int].len() == height),
            forall|c: usize| c < width ==> (!has_col(work@.take(j as int), c)
                ==> grid_view(grid@)[c as int].len() == 0),
            total_true(grid_view(grid@)) == sum_counts(work@.take(j as int)),
        decreases work@.len() - j,
    {
        let pair = work[j];
        let cidx = pair.0;
        let cnt = pair.1;
        let col = match get_mines(cnt, height) {
            Ok(c) => c,
            Err(e) => {
                proof {
                    assert(false);
                }
                return Err(e);
            },
        };
        proof {
            // the column has not been written yet: its index appears only once
            // in the work list
            if has_col(work@.take(j as int), cidx) {
                let jj = choose|jj: int| 0 <= jj < j && work@.take(j as int)[jj].0 == cidx;
                assert(work@[jj].0 == work@[j as int].0);
                assert(false);
            }
            lemma_total_true_update(grid_view(grid@), cidx as int, col@);
        }
        let ghost prev = grid@;
        let ghost prev_total = total_true(grid_view(grid@));
        grid.set(cidx, col);
        proof {
            assert(grid_view(grid@) =~= grid_view(prev).update(cidx as int, col@));
            assert(work@.take(j as int + 1) =~= work@.take(j as int).push(work@[j as int]));
            crate::counting::lemma_sum_counts_push(work@.take(j as int), work@[j as int]);
            assert forall|c: usize| c < width && has_col(work@.take(j as int + 1), c) implies
                grid_view(grid@)[c as int].len() == height by {
                crate::partition::lemma_has_col_push(work@.take(j as int), work@[j as int], c);
                if c != cidx {
                    assert(has_col(work@.take(j as int), c));
                    assert(grid_view(grid@)[c as int] == grid_view(prev)[c as int]);
                }
            }
            assert forall|c: usize| c < width && !has_col(work@.take(j as int + 1), c) implies
                grid_view(grid@)[c as int].len() == 0 by {
                crate::partition::lemma_has_col_push(work@.take(j as int), work@[j as int], c);
                assert(c != cidx);
                assert(!has_col(work@.take(j as int), c));
                assert(grid_view(grid@)[c as int] == grid_view(prev)[c as int]);
            }
        }
        j += 1;
    }
    proof {
        assert(work@.take(j as int) =~= work@);
        assert forall|i: int| 0 <= i < width implies grid_view(grid@)[i].len() == height by {
            let c = i as usize;
            assert(has_col(work@, c));
            assert(has_col(work@.take(j as int), c));
        }
    }
    Ok(grid)
}

/// Generate a `width` by `height` boolean grid holding exactly `mines_n`
/// mines, choosing the strategy by the mine-count threshold. Fails if and
/// only if more mines are requested than the grid has cells.
pub fn get_grid(width: usize, height: usize, mines_n: usize) -> (r: Result<
    Vec<Vec<bool>>,
    MinesOverflowError,
>)
    requires
        width * height <= usize::MAX,
    ensures
        r is Err <==> mines_n > width * height,
        r is Ok ==> valid_grid(grid_view(r->Ok_0@), width as int, height as int, mines_n as int),
{
    if mines_n > MINES_THRESHOLD {
        get_grid_partitioned(width, height, mines_n)
    } else {
        get_grid_flat(width, height, mines_n)
    }
}

} // verus!
