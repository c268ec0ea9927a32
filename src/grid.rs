use vstd::prelude::*;

use crate::stencil::{flat_index, lemma_flat_index};

verus! {

/// Why a grid cannot be used.
#[derive(Clone, Copy, Debug, PartialEq, Eq, Structural)]
pub enum GridError {
    /// An axis has fewer points than required.
    TooFewPoints,
    /// A 2D grid that must be square has a different number of points in x and y.
    NotSquare,
    /// A 2D grid that must have equal spacing in x and y does not.
    UnequalSpacing,
    /// The squared side lengths of a 2D grid do not fit the index type.
    TooLarge,
}

/// Least number of points of an axis from which grid coordinates can be made.
pub const MIN_AXIS_POINTS: usize = 2;

/// Least number of points per axis that the finite-difference stencils need.
pub const MIN_SOLVER_POINTS: usize = 3;

/// Checks that an equidistant axis of `n` points has a spacing, i.e. at least
/// two points.
pub fn check_axis(n: usize) -> (r: Result<(), GridError>)
    ensures
        r == if n < MIN_AXIS_POINTS {
            Err::<(), GridError>(GridError::TooFewPoints)
        } else {
            Ok(())
        },
{
    if n < MIN_AXIS_POINTS {
        Err(GridError::TooFewPoints)
    } else {
        Ok(())
    }
}

/// Checks the grid of a 1D solver: at least three points.
pub fn check_grid_1d(n: usize) -> (r: Result<(), GridError>)
    ensures
        r == if n < MIN_SOLVER_POINTS {
            Err::<(), GridError>(GridError::TooFewPoints)
        } else {
            Ok(())
        },
{
    if n < MIN_SOLVER_POINTS {
        Err(GridError::TooFewPoints)
    } else {
        Ok(())
    }
}

/// Checks the grid of a 2D diffusion solver: at least three points per axis.
pub fn check_grid_2d(nx: usize, ny: usize) -> (r: Result<(), GridError>)
    ensures
        r == if nx < MIN_SOLVER_POINTS || ny < MIN_SOLVER_POINTS {
            Err::<(), GridError>(GridError::TooFewPoints)
        } else {
            Ok(())
        },
{
    if nx < MIN_SOLVER_POINTS || ny < MIN_SOLVER_POINTS {
        Err(GridError::TooFewPoints)
    } else {
        Ok(())
    }
}

/// The outcome of checking the grid of a 2D DDFT solver, in the order of the
/// checks: enough points, square, equal spacing, and squared side lengths
/// that fit the index type.
pub open spec fn square_grid_check(nx: int, ny: int, equal_spacing: bool) -> Result<(), GridError> {
    if nx < MIN_SOLVER_POINTS || ny < MIN_SOLVER_POINTS {
        Err(GridError::TooFewPoints)
    } else if nx != ny {
        Err(GridError::NotSquare)
    } else if !equal_spacing {
        Err(GridError::UnequalSpacing)
    } else if nx * nx + ny * ny > usize::MAX {
        Err(GridError::TooLarge)
    } else {
        Ok(())
    }
}

/// Checks the grid of a 2D DDFT solver; `equal_spacing` tells whether the
/// spacings in x and y are equal.
pub fn check_square_grid(nx: usize, ny: usize, equal_spacing: bool) -> (r: Result<(), GridError>)
    ensures
        r == square_grid_check(nx as int, ny as int, equal_spacing),
{
    if nx < MIN_SOLVER_POINTS || ny < MIN_SOLVER_POINTS {
        return Err(GridError::TooFewPoints);
    }
    if nx != ny {
        return Err(GridError::NotSquare);
    }
    if !equal_spacing {
        return Err(GridError::UnequalSpacing);
    }
    let sq = nx.checked_mul(nx);
    match sq {
        None => {
            assert(nx * nx + ny * ny > usize::MAX) by (nonlinear_arith)
                requires
                    nx * nx > usize::MAX,
                    ny >= 0,
            {
            }
            Err(GridError::TooLarge)
        },
        Some(sq) => match sq.checked_add(sq) {
            None => Err(GridError::TooLarge),
            Some(_) => Ok(()),
        },
    }
}

/// The points of the Cartesian grid of `xs` and `ys`, with x the fast index:
/// the point `(xs[ix], ys[iy])` stands at `iy * nx + ix`.
pub fn cartesian_points<T: Copy>(xs: &[T], ys: &[T]) -> (r: Vec<(T, T)>)
    requires
        xs@.len() * ys@.len() <= usize::MAX,
    ensures
        r@.len() == xs@.len() * ys@.len(),
        forall|iy: int, ix: int|
            0 <= iy < ys@.len() && 0 <= ix < xs@.len() ==> #[trigger] r@[flat_index(
                iy,
                ix,
                xs@.len() as int,
            )] == (xs@[ix], ys@[iy]),
{
    let nx = xs.len();
    let ny = ys.len();
    let ghost n = nx as int;
    let mut r: Vec<(T, T)> = Vec::new();
    assert(0 * nx == 0) by (nonlinear_arith);
    for iy in 0..ny
        invariant
            nx == xs@.len(),
            ny == ys@.len(),
            n == nx,
            nx * ny <= usize::MAX,
            r@.len() == iy * nx,
            forall|a: int, b: int|
                0 <= a < iy && 0 <= b < nx ==> #[trigger] r@[flat_index(a, b, n)] == (
                    xs@[b],
                    ys@[a],
                ),
    {
        for ix in 0..nx
            invariant
                nx == xs@.len(),
                ny == ys@.len(),
                n == nx,
                iy < ny,
                nx * ny <= usize::MAX,
                r@.len() == iy * nx + ix,
                forall|a: int, b: int|
                    (0 <= a < iy && 0 <= b < nx) || (a == iy && 0 <= b < ix) ==> #[trigger] r@[flat_index(
                        a,
                        b,
                        n,
                    )] == (xs@[b], ys@[a]),
        {
            proof {
                lemma_flat_index(iy as int, ix as int, n, ny as int);
            }
            let ghost prev = r@;
            r.push((xs[ix], ys[iy]));
            proof {
                assert forall|a: int, b: int|
                    (0 <= a < iy && 0 <= b < nx) || (a == iy && 0 <= b < ix + 1) implies #[trigger] r@[flat_index(
                    a,
                    b,
                    n,
                )] == (xs@[b], ys@[a]) by {
                    if a == iy && b == ix {
                    } else if a == iy {
                        assert(r@[flat_index(a, b, n)] == prev[flat_index(a, b, n)]);
                    } else {
                        lemma_flat_index(a, b, n, iy as int);
                        assert(r@[flat_index(a, b, n)] == prev[flat_index(a, b, n)]);
                    }
                }
            }
        }
        assert((iy + 1) * nx == iy * nx + nx) by (nonlinear_arith);
    }
    assert(ny * nx == nx * ny) by (nonlinear_arith);
    r
}

/// Samples `init` once at each point, in order, and splits its results into
/// three fields.
pub fn sample_three<P: Copy, T, F: Fn(P) -> (T, T, T)>(points: &[P], init: F) -> (r: (
    Vec<T>,
    Vec<T>,
    Vec<T>,
))
    requires
        forall|k: int| 0 <= k < points@.len() ==> init.requires((points@[k],)),
    ensures
        r.0@.len() == points@.len(),
        r.1@.len() == points@.len(),
        r.2@.len() == points@.len(),
        forall|k: int|
            0 <= k < points@.len() ==> init.ensures((points@[k],), (r.0@[k], r.1@[k], r.2@[k])),
{
    let mut a: Vec<T> = Vec::new();
    let mut b: Vec<T> = Vec::new();
    let mut c: Vec<T> = Vec::new();
    let len = points.len();
    for k in 0..len
        invariant
            len == points@.len(),
            forall|j: int| 0 <= j < points@.len() ==> init.requires((points@[j],)),
            a@.len() == k,
            b@.len() == k,
            c@.len() == k,
            forall|j: int| 0 <= j < k ==> init.ensures((points@[j],), (a@[j], b@[j], c@[j])),
    {
        let (x, y, z) = init(points[k]);
        a.push(x);
        b.push(y);
        c.push(z);
    }
    (a, b, c)
}

/// Samples `init` once at each point, in order, and splits its results into
/// two fields.
pub fn sample_two<P: Copy, T, F: Fn(P) -> (T, T)>(points: &[P], init: F) -> (r: (Vec<T>, Vec<T>))
    requires
        forall|k: int| 0 <= k < points@.len() ==> init.requires((points@[k],)),
    ensures
        r.0@.len() == points@.len(),
        r.1@.len() == points@.len(),
        forall|k: int| 0 <= k < points@.len() ==> init.ensures((points@[k],), (r.0@[k], r.1@[k])),
{
    let mut a: Vec<T> = Vec::new();
    let mut b: Vec<T> = Vec::new();
    let len = points.len();
    for k in 0..len
        invariant
            len == points@.len(),
            forall|j: int| 0 <= j < points@.len() ==> init.requires((points@[j],)),
            a@.len() == k,
            b@.len() == k,
            forall|j: int| 0 <= j < k ==> init.ensures((points@[j],), (a@[j], b@[j])),
    {
        let (x, y) = init(points[k]);
        a.push(x);
        b.push(y);
    }
    (a, b)
}

} // verus!
