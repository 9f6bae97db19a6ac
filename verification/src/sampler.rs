//! The exact sampler: an unbiased draw-without-replacement from a pool, and
//! the column mine sampler built on it, which places an exact number of mines
//! in a boolean vector.

use vstd::prelude::*;

use crate::counting::{
    count_true, lemma_count_true_all_false, lemma_count_true_set_true,
};
use crate::rng::{fresh_small_rng, rng_below};
use crate::MinesOverflowError;

verus! {

/// The pool after a swap-removal at position `i`: the last element moves into
/// position `i` and the last slot is dropped.
pub open spec fn swap_removed<T>(s: Seq<T>, i: int) -> Seq<T> {
    s.update(i, s.last()).drop_last()
}

/// Swap-removal from a duplicate-free pool removes exactly the element at the
/// chosen position and keeps every other element, still duplicate-free.
pub proof fn lemma_swap_removed<T>(s: Seq<T>, i: int)
    requires
        0 <= i < s.len(),
        s.no_duplicates(),
    ensures
        swap_removed(s, i).len() == s.len() - 1,
        swap_removed(s, i).no_duplicates(),
        forall|x: T| #[trigger] swap_removed(s, i).contains(x) <==> (s.contains(x) && x != s[i]),
{
    let t = swap_removed(s, i);
    let n = s.len() as int;
    assert forall|x: T| #[trigger] t.contains(x) implies s.contains(x) && x != s[i] by {
        let j = choose|j: int| 0 <= j < t.len() && t[j] == x;
        if j == i {
            assert(s[n - 1] == x);
            assert(s.contains(x));
        } else {
            assert(s[j] == x);
            assert(s.contains(x));
        }
    }
    assert forall|x: T| s.contains(x) && x != s[i] implies #[trigger] t.contains(x) by {
        let j = choose|j: int| 0 <= j < n && s[j] == x;
        if j < n - 1 {
            assert(t[j] == x);
        } else {
            assert(t[i] == x);
        }
    }
    assert forall|j1: int, j2: int|
        0 <= j1 < t.len() && 0 <= j2 < t.len() && j1 != j2 implies t[j1] != t[j2] by {
        assert(t[j1] == if j1 == i { s[n - 1] } else { s[j1] });
        assert(t[j2] == if j2 == i { s[n - 1] } else { s[j2] });
    }
}

/// Draw one element from the pool, chosen uniformly at random, and remove it
/// in constant time by swapping the pool's last element into its place. On an
/// empty pool nothing is drawn and the pool is untouched.
pub fn pick_random<T: Copy>(rng: &mut rand::rngs::SmallRng, v: &mut Vec<T>) -> (r: Option<T>)
    ensures
        r is None <==> old(v)@.len() == 0,
        r is None ==> final(v)@ == old(v)@,
        r is Some ==> exists|i: int|
            0 <= i < old(v)@.len() && r->0 == old(v)@[i] && final(v)@ == swap_removed(
                old(v)@,
                i,
            ),
{
    if v.len() == 0 {
        return None;
    }
    let index = rng_below(rng, v.len());
    let random = v[index];
    let last = v[v.len() - 1];
    v.set(index, last);
    v.pop();
    proof {
        assert(v@ =~= swap_removed(old(v)@, index as int));
    }
    Some(random)
}

/// Produce a boolean column of length `len` with exactly `mines_n` cells set
/// `true`, their positions drawn without replacement from the whole column.
/// Fails if and only if more mines are requested than the column has cells.
pub fn get_mines(mines_n: usize, len: usize) -> (r: Result<Vec<bool>, MinesOverflowError>)
    ensures
        r is Err <==> mines_n > len,
        r is Ok ==> r->Ok_0@.len() == len && count_true(r->Ok_0@) == mines_n,
{
    if mines_n > len {
        return Err(MinesOverflowError);
    }
    let mut mines: Vec<bool> = Vec::new();
    let mut j: usize = 0;
    while j < len
        invariant
            j <= len,
            mines@.len() == j,
            forall|k: int| 0 <= k < j ==> !mines@[k],
        decreases len - j,
    {
        mines.push(false);
        j += 1;
    }
    let mut indexes: Vec<usize> = Vec::new();
    let mut i: usize = 0;
    while i < len
        invariant
            i <= len,
            indexes@.len() == i,
            forall|k: int| 0 <= k < i ==> indexes@[k] == k,
        decreases len - i,
    {
        indexes.push(i);
        i += 1;
    }
    proof {
        lemma_count_true_all_false(mines@);
        assert forall|x: usize| indexes@.contains(x) implies x < len by {
            let k = choose|k: int| 0 <= k < indexes@.len() && indexes@[k] == x;
        }
        assert forall|k: int| 0 <= k < len implies (mines@[k] <==> !indexes@.contains(
            k as usize,
        )) by {
            assert(indexes@[k] == k as usize);
        }
    }
    let mut rng = fresh_small_rng();
    let mut drawn: usize = 0;
    while drawn < mines_n
        invariant
            drawn <= mines_n <= len,
            mines@.len() == len,
            indexes@.len() == len - drawn,
            indexes@.no_duplicates(),
            forall|x: usize| #[trigger] indexes@.contains(x) ==> x < len,
            forall|k: int| 0 <= k < len ==> (mines@[k] <==> !indexes@.contains(k as usize)),
            count_true(mines@) == drawn,
        decreases mines_n - drawn,
    {
        let ghost pool = indexes@;
        let ghost cells = mines@;
        let picked = pick_random(&mut rng, &mut indexes);
        let mine_index = picked.unwrap();
        proof {
            let i = choose|i: int|
                0 <= i < pool.len() && mine_index == pool[i] && indexes@ == swap_removed(pool, i);
            lemma_swap_removed(pool, i);
            assert(pool.contains(mine_index));
            assert(mine_index < len);
            assert(!cells[mine_index as int]);
            lemma_count_true_set_true(cells, mine_index as int);
        }
        mines.set(mine_index, true);
        proof {
            assert forall|k: int| 0 <= k < len implies (mines@[k] <==> !indexes@.contains(
                k as usize,
            )) by {
                if k == mine_index as int {
                } else {
                    assert(k as usize != mine_index);
                    assert(cells[k] <==> !pool.contains(k as usize));
                }
            }
        }
        drawn += 1;
    }
    Ok(mines)
}

} // verus!
