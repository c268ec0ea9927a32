use vstd::prelude::*;
use vstd::arithmetic::div_mod::lemma_fundamental_div_mod_converse;

use crate::stencil::{min_int, wrap};

verus! {

/// Distance between points `i` and `j` of a periodic axis of `n` points,
/// going whichever way round is shorter.
pub open spec fn circular_distance(i: int, j: int, n: int) -> int {
    min_int((j - i) % n, (i - j) % n)
}

/// Signed step from the centre of the `k`-th term of a periodic convolution:
/// `0, -1, 1, -2, 2, ...`, so that each distance is visited on both sides.
pub open spec fn term_step(k: int) -> int {
    if k % 2 == 1 {
        -((k + 1) / 2)
    } else {
        k / 2
    }
}

/// The steps of the terms of an axis of `n` points stay within half a period.
proof fn lemma_term_step_range(k: int, n: int)
    requires
        0 <= k < n,
    ensures
        -(n / 2) <= term_step(k) <= (n - 1) / 2,
        term_step(k) >= 0 <==> k % 2 == 0,
{
}

/// The point reached by a step within half a period lies at the step's length
/// in circular distance.
proof fn lemma_step_point(o: int, e: int, n: int)
    requires
        0 <= o < n,
        -(n / 2) <= e <= (n - 1) / 2,
    ensures
        0 <= wrap(o, e, n) < n,
        circular_distance(o, wrap(o, e, n), n) == if e >= 0 {
            e
        } else {
            -e
        },
        wrap(o, e, n) == o + e || wrap(o, e, n) == o + e + n || wrap(o, e, n) == o + e - n,
{
    let j = if o + e >= n {
        o + e - n
    } else if o + e < 0 {
        o + e + n
    } else {
        o + e
    };
    if o + e >= n {
        lemma_fundamental_div_mod_converse(o + e, n, 1, j);
    } else if o + e < 0 {
        lemma_fundamental_div_mod_converse(o + e, n, -1, j);
    } else {
        lemma_fundamental_div_mod_converse(o + e, n, 0, j);
    }
    if e > 0 {
        lemma_fundamental_div_mod_converse(j - o, n, if j == o + e { 0 } else { -1 }, e);
        lemma_fundamental_div_mod_converse(o - j, n, if j == o + e { -1 } else { 0 }, n - e);
    } else if e == 0 {
        lemma_fundamental_div_mod_converse(j - o, n, 0, 0);
        lemma_fundamental_div_mod_converse(o - j, n, 0, 0);
    } else {
        lemma_fundamental_div_mod_converse(j - o, n, if j == o + e { -1 } else { 0 }, n + e);
        lemma_fundamental_div_mod_converse(o - j, n, if j == o + e { 0 } else { -1 }, -e);
    }
}

/// Some term of `r` weights the point `j`.
pub open spec fn visits(r: Seq<(usize, usize)>, j: int) -> bool {
    exists|k: int| 0 <= k < r.len() && r[k].1 == j
}

/// Every point of the axis is reached from `o` by the step of some term.
proof fn lemma_terms_reach(o: int, j: int, n: int) -> (k: int)
    requires
        0 <= o < n,
        0 <= j < n,
    ensures
        0 <= k < n,
        wrap(o, term_step(k), n) == j,
{
    let f = if j >= o {
        j - o
    } else {
        j - o + n
    };
    let e = if f <= (n - 1) / 2 {
        f
    } else {
        f - n
    };
    let k = if e >= 0 {
        2 * e
    } else {
        -2 * e - 1
    };
    assert(term_step(k) == e);
    if o + e >= n {
        lemma_fundamental_div_mod_converse(o + e, n, 1, j);
    } else if o + e < 0 {
        lemma_fundamental_div_mod_converse(o + e, n, -1, j);
    } else {
        lemma_fundamental_div_mod_converse(o + e, n, 0, j);
    }
    k
}

/// The terms of the periodic convolution centred at `offset` on an axis of
/// `n` points: each entry pairs a kernel index, the circular distance from
/// `offset`, with the point it weights. Every point appears exactly once, and
/// the two points at each distance come one after the other.
pub fn convolution_terms(offset: usize, n: usize) -> (r: Vec<(usize, usize)>)
    requires
        offset < n,
    ensures
        r@.len() == n,
        forall|k: int|
            0 <= k < n ==> #[trigger] r@[k].1 < n && r@[k].0 == circular_distance(
                offset as int,
                r@[k].1 as int,
                n as int,
            ) && r@[k].1 == wrap(offset as int, term_step(k), n as int),
        forall|k1: int, k2: int|
            0 <= k1 < n && 0 <= k2 < n && k1 != k2 ==> #[trigger] r@[k1].1 != #[trigger] r@[k2].1,
        forall|j: int| 0 <= j < n ==> #[trigger] visits(r@, j),
{
    let mut r: Vec<(usize, usize)> = Vec::new();
    let ghost (o, ni) = (offset as int, n as int);
    for k in 0..n
        invariant
            o == offset,
            ni == n,
            o < ni,
            r@.len() == k,
            forall|j: int| 0 <= j < k ==> #[trigger] r@[j].1 < n && r@[j].0 == circular_distance(
                o,
                r@[j].1 as int,
                ni,
            ) && r@[j].1 == wrap(o, term_step(j), ni),
    {
        proof {
            lemma_term_step_range(k as int, ni);
            lemma_step_point(o, term_step(k as int), ni);
        }
        let entry = if k % 2 == 1 {
            let m = (k + 1) / 2;
            if m <= offset {
                (m, offset - m)
            } else {
                (m, n - (m - offset))
            }
        } else {
            let m = k / 2;
            if m >= n - offset {
                (m, m - (n - offset))
            } else {
                (m, offset + m)
            }
        };
        r.push(entry);
        proof {
            assert(r@[k as int] == entry);
            assert forall|j: int| 0 <= j < k + 1 implies #[trigger] r@[j].1 < n && r@[j].0
                == circular_distance(o, r@[j].1 as int, ni) && r@[j].1 == wrap(
                o,
                term_step(j),
                ni,
            ) by {
                if j < k {
                    assert(r@[j] == r@.drop_last()[j]);
                }
            }
        }
    }
    proof {
        assert forall|k1: int, k2: int|
            0 <= k1 < n && 0 <= k2 < n && k1 != k2 implies #[trigger] r@[k1].1
            != #[trigger] r@[k2].1 by {
            lemma_term_step_range(k1, ni);
            lemma_term_step_range(k2, ni);
            lemma_step_point(o, term_step(k1), ni);
            lemma_step_point(o, term_step(k2), ni);
        }
        assert forall|j: int| 0 <= j < n implies #[trigger] visits(r@, j) by {
            let k = lemma_terms_reach(o, j, ni);
            assert(r@[k].1 == j);
        }
    }
    r
}

} // verus!
