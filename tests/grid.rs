use sir_ddft::{
    cartesian_points, check_axis, check_grid_1d, check_grid_2d, check_square_grid, sample_three,
    sample_two, GridError,
};

#[test]
fn axis_needs_two_points() {
    assert_eq!(check_axis(0), Err(GridError::TooFewPoints));
    assert_eq!(check_axis(1), Err(GridError::TooFewPoints));
    assert_eq!(check_axis(2), Ok(()));
}

#[test]
fn solver_grid_1d_needs_three_points() {
    assert_eq!(check_grid_1d(2), Err(GridError::TooFewPoints));
    assert_eq!(check_grid_1d(3), Ok(()));
}

#[test]
fn solver_grid_2d_needs_three_points_per_axis() {
    assert_eq!(check_grid_2d(2, 10), Err(GridError::TooFewPoints));
    assert_eq!(check_grid_2d(10, 2), Err(GridError::TooFewPoints));
    assert_eq!(check_grid_2d(3, 10), Ok(()));
}

#[test]
fn square_grid_errors_in_order() {
    assert_eq!(check_square_grid(2, 5, false), Err(GridError::TooFewPoints));
    assert_eq!(check_square_grid(4, 5, false), Err(GridError::NotSquare));
    assert_eq!(check_square_grid(4, 4, false), Err(GridError::UnequalSpacing));
    assert_eq!(check_square_grid(4, 4, true), Ok(()));
}

#[test]
fn square_grid_too_large() {
    let side = 1usize << (usize::BITS / 2);
    assert_eq!(check_square_grid(side, side, true), Err(GridError::TooLarge));
    let half = side / 2;
    assert_eq!(check_square_grid(half, half, true), Ok(()));
}

#[test]
fn cartesian_points_x_fastest() {
    let xs = [0.0, 0.5, 1.0];
    let ys = [10.0, 20.0];
    let pts = cartesian_points(&xs, &ys);
    assert_eq!(
        pts,
        vec![(0.0, 10.0), (0.5, 10.0), (1.0, 10.0), (0.0, 20.0), (0.5, 20.0), (1.0, 20.0)]
    );
}

#[test]
fn cartesian_points_empty_axis() {
    let xs: [u8; 0] = [];
    assert!(cartesian_points(&xs, &[1u8, 2]).is_empty());
}

#[test]
fn sample_three_in_grid_order() {
    let points = [0.0f64, 0.5, 1.0];
    let (s, i, r) = sample_three(&points, |x: f64| (1.0 - x, x, 2.0 * x));
    assert_eq!(s, vec![1.0, 0.5, 0.0]);
    assert_eq!(i, vec![0.0, 0.5, 1.0]);
    assert_eq!(r, vec![0.0, 1.0, 2.0]);
}

#[test]
fn sample_two_on_2d_points() {
    let pts = cartesian_points(&[0.0f64, 1.0], &[0.0f64, 2.0]);
    let (s, z) = sample_two(&pts, |(x, y): (f64, f64)| (x + y, x * y));
    assert_eq!(s, vec![0.0, 1.0, 2.0, 3.0]);
    assert_eq!(z, vec![0.0, 0.0, 0.0, 2.0]);
}
