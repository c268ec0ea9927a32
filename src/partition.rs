use vstd::prelude::*;
use vstd::arithmetic::div_mod::{lemma_fundamental_div_mod, lemma_mod_pos_bound};

use crate::stencil::{ceil_div, is_ceil_div, min_int};

verus! {

/// Number of items that each worker handles when `n` items are shared among
/// `workers` workers (a pool of fewer than one worker counts as one).
pub open spec fn chunk_len(n: int, workers: int) -> int
    recommends
        n > 0,
{
    let w = if workers < 1 {
        1
    } else {
        workers
    };
    (n + w - 1) / w
}

/// `r` splits `0..n` into consecutive ranges of `c` items each, the last one
/// possibly shorter, and holds no empty range.
pub open spec fn is_chunking(r: Seq<(usize, usize)>, n: int, c: int) -> bool {
    &&& r.len() * c >= n
    &&& (r.len() - 1) * c < n
    &&& forall|k: int|
        0 <= k < r.len() ==> #[trigger] r[k].0 == k * c && r[k].1 == min_int((k + 1) * c, n)
}

/// Splits the `n` items `0..n` into contiguous ranges `(start, end)`, one for
/// each worker of a pool of `workers` (at least one) that gets any work: every
/// range but the last holds `ceil(n / workers)` items.
pub fn worker_ranges(n: usize, workers: usize) -> (r: Vec<(usize, usize)>)
    ensures
        n == 0 ==> r@.len() == 0,
        n > 0 ==> {
            &&& 1 <= r@.len() <= if workers < 1 {
                1
            } else {
                workers as int
            }
            &&& is_chunking(r@, n as int, chunk_len(n as int, workers as int))
        },
{
    let mut r: Vec<(usize, usize)> = Vec::new();
    if n == 0 {
        return r;
    }
    let w: usize = if workers < 1 { 1 } else { workers };
    let c = ceil_div(n, w);
    assert(c <= n) by (nonlinear_arith)
        requires
            (c - 1) * w < n,
            w >= 1,
            c >= 1,
    {
    }
    let mut start: usize = 0;
    while start < n
        invariant
            0 < c <= n,
            is_ceil_div(n as int, w as int, c as int),
            c as int == chunk_len(n as int, workers as int),
            w as int == if workers < 1 {
                1
            } else {
                workers as int
            },
            start as int == min_int(r@.len() * c, n as int),
            r@.len() > 0 ==> (r@.len() - 1) * c < n,
            forall|k: int|
                0 <= k < r@.len() ==> #[trigger] r@[k].0 == k * c && r@[k].1 == min_int(
                    (k + 1) * c,
                    n as int,
                ),
        decreases n - start,
    {
        let ghost len = r@.len();
        assert(start as int == len * c);
        let end = if n - start <= c { n } else { start + c };
        assert((len + 1) * c == len * c + c) by (nonlinear_arith);
        let ghost prev = r@;
        r.push((start, end));
        assert forall|k: int| 0 <= k < r@.len() implies #[trigger] r@[k].0 == k * c && r@[k].1
            == min_int((k + 1) * c, n as int) by {
            if k < len {
                assert(r@[k] == prev[k]);
            }
        }
        start = end;
    }
    proof {
        let (ni, wi, ci, li) = (n as int, w as int, c as int, r@.len() as int);
        assert(li * ci >= ni);
        assert(is_chunking(r@, ni, ci));
        assert(li >= 1) by (nonlinear_arith)
            requires
                li * ci >= ni,
                ni > 0,
                li >= 0,
        {
        }
        assert(li <= wi) by (nonlinear_arith)
            requires
                (li - 1) * ci < ni,
                ni <= ci * wi,
                ci > 0,
        {
        }
    }
    r
}

/// Every item of `0..n` falls in exactly one range of a chunking into ranges
/// of `c` items: the one numbered `j / c`.
pub proof fn lemma_chunking_partitions(r: Seq<(usize, usize)>, n: int, c: int, j: int)
    requires
        c > 0,
        is_chunking(r, n, c),
        0 <= j < n,
    ensures
        0 <= j / c < r.len(),
        r[j / c].0 <= j < r[j / c].1,
        forall|k: int| 0 <= k < r.len() && #[trigger] r[k].0 <= j < r[k].1 ==> k == j / c,
{
    let q = j / c;
    lemma_fundamental_div_mod(j, c);
    lemma_mod_pos_bound(j, c);
    assert(q * c <= j < (q + 1) * c) by (nonlinear_arith)
        requires
            j == c * q + j % c,
            0 <= j % c < c,
    {
    }
    assert(q < r.len()) by (nonlinear_arith)
        requires
            q * c <= j,
            j < n,
            n <= r.len() * c,
            c > 0,
    {
    }
    assert(0 <= q) by (nonlinear_arith)
        requires
            q * c <= j,
            j < (q + 1) * c,
            j >= 0,
            c > 0,
    {
    }
    assert forall|k: int| 0 <= k < r.len() && #[trigger] r[k].0 <= j < r[k].1 implies k == q by {
        assert(k * c <= j && j < (k + 1) * c);
        assert(k == q) by (nonlinear_arith)
            requires
                k * c <= j,
                j < (k + 1) * c,
                q * c <= j,
                j < (q + 1) * c,
                c > 0,
        {
        }
    }
}

} // verus!
