use vstd::prelude::*;
use vstd::arithmetic::div_mod::{
    lemma_fundamental_div_mod, lemma_fundamental_div_mod_converse, lemma_mod_pos_bound,
};

verus! {

/// The ceiling of `x / y`, characterised without division.
pub open spec fn is_ceil_div(x: int, y: int, r: int) -> bool {
    (r - 1) * y < x && x <= r * y
}

/// Computes `ceil(x / y)` for a positive numerator.
pub fn ceil_div(x: usize, y: usize) -> (r: usize)
    requires
        x > 0,
        y > 0,
    ensures
        is_ceil_div(x as int, y as int, r as int),
        r as int == (x + y - 1) / (y as int),
        r >= 1,
{
    let q = (x - 1) / y;
    proof {
        let (xm, yi, qi) = ((x - 1) as int, y as int, q as int);
        lemma_fundamental_div_mod(xm, yi);
        lemma_mod_pos_bound(xm, yi);
        assert((qi + 1) * yi == qi * yi + yi && yi * qi == qi * yi) by (nonlinear_arith);
        lemma_fundamental_div_mod_converse(xm + yi, yi, qi + 1, xm % yi);
    }
    1 + q
}

/// Index of the grid point `i + offset` on a periodic axis of `n` points.
pub open spec fn wrap(i: int, offset: int, n: int) -> int {
    (i + offset) % n
}

/// Returns the indices two before, one before, one after and two after `i`
/// on a periodic axis of `n` points, wrapping around at both ends.
pub fn calc_indices(i: usize, n: usize) -> (r: [usize; 4])
    requires
        i < n,
    ensures
        r@[0] as int == wrap(i as int, -2, n as int),
        r@[1] as int == wrap(i as int, -1, n as int),
        r@[2] as int == wrap(i as int, 1, n as int),
        r@[3] as int == wrap(i as int, 2, n as int),
        forall|k: int| 0 <= k < 4 ==> r@[k] < n,
{
    let prev = if i == 0 { n - 1 } else { i - 1 };
    let prevprev = if prev == 0 { n - 1 } else { prev - 1 };
    let next = if i + 1 == n { 0 } else { i + 1 };
    let nextnext = if next + 1 == n { 0 } else { next + 1 };
    proof {
        let (ii, ni) = (i as int, n as int);
        if i == 0 {
            lemma_fundamental_div_mod_converse(ii - 1, ni, -1, prev as int);
        } else {
            lemma_fundamental_div_mod_converse(ii - 1, ni, 0, prev as int);
        }
        if ii - 2 < -ni {
            lemma_fundamental_div_mod_converse(ii - 2, ni, -2, prevprev as int);
        } else if ii - 2 < 0 {
            lemma_fundamental_div_mod_converse(ii - 2, ni, -1, prevprev as int);
        } else {
            lemma_fundamental_div_mod_converse(ii - 2, ni, 0, prevprev as int);
        }
        if i + 1 == n {
            lemma_fundamental_div_mod_converse(ii + 1, ni, 1, next as int);
        } else {
            lemma_fundamental_div_mod_converse(ii + 1, ni, 0, next as int);
        }
        if ii + 2 >= 2 * ni {
            lemma_fundamental_div_mod_converse(ii + 2, ni, 2, nextnext as int);
        } else if ii + 2 >= ni {
            lemma_fundamental_div_mod_converse(ii + 2, ni, 1, nextnext as int);
        } else {
            lemma_fundamental_div_mod_converse(ii + 2, ni, 0, nextnext as int);
        }
    }
    [prevprev, prev, next, nextnext]
}

/// Position of entry `(row, col)` of a row-major matrix with `n` columns.
pub open spec fn flat_index(row: int, col: int, n: int) -> int {
    row * n + col
}

/// A row-major position lies inside the matrix and determines its entry.
pub proof fn lemma_flat_index(row: int, col: int, n: int, rows: int)
    requires
        0 <= row < rows,
        0 <= col < n,
    ensures
        0 <= flat_index(row, col, n) < rows * n,
        flat_index(row, col, n) / n == row,
        flat_index(row, col, n) % n == col,
{
    lemma_fundamental_div_mod_converse(flat_index(row, col, n), n, row, col);
    assert(row * n + col < rows * n) by (nonlinear_arith)
        requires
            0 <= row < rows,
            0 <= col < n,
    {
    }
    assert(0 <= row * n) by (nonlinear_arith)
        requires
            0 <= row,
            0 <= n,
    {
    }
}

/// Two positions inside a row-major matrix coincide only for the same entry.
pub proof fn lemma_flat_index_injective(r1: int, c1: int, r2: int, c2: int, n: int, rows: int)
    requires
        0 <= r1 < rows,
        0 <= c1 < n,
        0 <= r2 < rows,
        0 <= c2 < n,
        flat_index(r1, c1, n) == flat_index(r2, c2, n),
    ensures
        r1 == r2,
        c1 == c2,
{
    lemma_flat_index(r1, c1, n, rows);
    lemma_flat_index(r2, c2, n, rows);
}

/// Transposes, in place, the square matrix of side `n` stored row-major in `v`.
pub fn transpose_2d<T: Copy>(v: &mut [T], n: usize)
    requires
        old(v)@.len() == n * n,
    ensures
        final(v)@.len() == n * n,
        forall|row: int, col: int|
            0 <= row < n && 0 <= col < n ==> #[trigger] final(v)@[flat_index(row, col, n as int)]
                == old(v)@[flat_index(col, row, n as int)],
{
    let ghost orig = v@;
    let ghost ni = n as int;
    let total = v.len();
    for iy in 0..n
        invariant
            total == n * n,
            v@.len() == n * n,
            orig.len() == n * n,
            ni == n,
            forall|row: int, col: int|
                0 <= row < n && 0 <= col < n ==> #[trigger] v@[flat_index(row, col, ni)] == if row
                    < iy || col < iy {
                    orig[flat_index(col, row, ni)]
                } else {
                    orig[flat_index(row, col, ni)]
                },
    {
        for ix in (iy + 1)..n
            invariant
                v@.len() == n * n,
                orig.len() == n * n,
                ni == n,
                iy < n,
                total == n * n,
                forall|row: int, col: int|
                    0 <= row < n && 0 <= col < n ==> #[trigger] v@[flat_index(row, col, ni)] == if row
                        < iy || col < iy || (row == iy && iy < col < ix) || (col == iy && iy < row
                        < ix) {
                        orig[flat_index(col, row, ni)]
                    } else {
                        orig[flat_index(row, col, ni)]
                    },
        {
            proof {
                lemma_flat_index(iy as int, ix as int, ni, ni);
                lemma_flat_index(ix as int, iy as int, ni, ni);
            }
            let i1 = iy * n + ix;
            let i2 = ix * n + iy;
            let ghost before = v@;
            let a = v[i1];
            let b = v[i2];
            v[i1] = b;
            v[i2] = a;
            proof {
                assert forall|row: int, col: int| 0 <= row < n && 0 <= col < n implies #[trigger] v@[flat_index(row, col, ni)] == if row
                        < iy || col < iy || (row == iy && iy < col < ix + 1) || (col == iy && iy < row
                        < ix + 1) {
                        orig[flat_index(col, row, ni)]
                    } else {
                        orig[flat_index(row, col, ni)]
                    } by {
                    lemma_flat_index(row, col, ni, ni);
                    if flat_index(row, col, ni) == i1 {
                        lemma_flat_index_injective(row, col, iy as int, ix as int, ni, ni);
                    } else if flat_index(row, col, ni) == i2 {
                        lemma_flat_index_injective(row, col, ix as int, iy as int, ni, ni);
                    } else {
                        assert(v@[flat_index(row, col, ni)] == before[flat_index(row, col, ni)]);
                    }
                }
            }
        }
    }
}

/// The smaller of two integers.
pub open spec fn min_int(a: int, b: int) -> int {
    if a <= b {
        a
    } else {
        b
    }
}

/// Squared distance, in grid steps, from the origin to the nearest of the four
/// periodic images of the point `(ix, iy)` on an `nx` by `ny` grid.
pub open spec fn nearest_image_sq_dist(ix: int, iy: int, nx: int, ny: int) -> int {
    min_int(
        ix * ix + iy * iy,
        min_int(
            (nx - ix) * (nx - ix) + iy * iy,
            min_int(ix * ix + (ny - iy) * (ny - iy), (nx - ix) * (nx - ix) + (ny - iy) * (ny - iy)),
        ),
    )
}

/// Returns the squared periodic distance of grid point `(ix, iy)` from the
/// origin, counted in grid steps; interaction kernels depend on it alone.
pub fn periodic_sq_distance(ix: usize, iy: usize, nx: usize, ny: usize) -> (r: usize)
    requires
        ix < nx,
        iy < ny,
        nx * nx + ny * ny <= usize::MAX,
    ensures
        r as int == nearest_image_sq_dist(ix as int, iy as int, nx as int, ny as int),
{
    let (rx, ry) = (nx - ix, ny - iy);
    proof {
        assert(ix * ix <= nx * nx && rx * rx <= nx * nx) by (nonlinear_arith)
            requires
                ix < nx,
                rx <= nx,
        {
        }
        assert(iy * iy <= ny * ny && ry * ry <= ny * ny) by (nonlinear_arith)
            requires
                iy < ny,
                ry <= ny,
        {
        }
    }
    let top_left = ix * ix + iy * iy;
    let top_right = rx * rx + iy * iy;
    let bottom_left = ix * ix + ry * ry;
    let bottom_right = rx * rx + ry * ry;
    let m1 = if bottom_left <= bottom_right { bottom_left } else { bottom_right };
    let m2 = if top_right <= m1 { top_right } else { m1 };
    if top_left <= m2 { top_left } else { m2 }
}

} // verus!
