use sir_ddft::{calc_indices, ceil_div, periodic_sq_distance, transpose_2d};

#[test]
fn ceil_div_rounds_up() {
    assert_eq!(ceil_div(10, 3), 4);
    assert_eq!(ceil_div(9, 3), 3);
    assert_eq!(ceil_div(1, 5), 1);
    assert_eq!(ceil_div(7, 1), 7);
}

#[test]
fn calc_indices_interior() {
    assert_eq!(calc_indices(2, 5), [0, 1, 3, 4]);
}

#[test]
fn calc_indices_wraps_at_both_ends() {
    assert_eq!(calc_indices(0, 5), [3, 4, 1, 2]);
    assert_eq!(calc_indices(1, 5), [4, 0, 2, 3]);
    assert_eq!(calc_indices(4, 5), [2, 3, 0, 1]);
    assert_eq!(calc_indices(3, 5), [1, 2, 4, 0]);
}

#[test]
fn calc_indices_small_axes() {
    assert_eq!(calc_indices(0, 1), [0, 0, 0, 0]);
    assert_eq!(calc_indices(1, 2), [1, 0, 0, 1]);
    assert_eq!(calc_indices(0, 3), [1, 2, 1, 2]);
}

#[test]
fn calc_indices_largest_axis() {
    let n = usize::MAX;
    assert_eq!(calc_indices(0, n), [n - 2, n - 1, 1, 2]);
    assert_eq!(calc_indices(n - 1, n), [n - 3, n - 2, 0, 1]);
}

#[test]
fn transpose_square_matrix() {
    let mut v = vec![1, 2, 3, 4, 5, 6, 7, 8, 9];
    transpose_2d(&mut v, 3);
    assert_eq!(v, vec![1, 4, 7, 2, 5, 8, 3, 6, 9]);
    transpose_2d(&mut v, 3);
    assert_eq!(v, vec![1, 2, 3, 4, 5, 6, 7, 8, 9]);
}

#[test]
fn transpose_trivial_sizes() {
    let mut empty: Vec<u8> = vec![];
    transpose_2d(&mut empty, 0);
    assert!(empty.is_empty());
    let mut one = vec![7.5f64];
    transpose_2d(&mut one, 1);
    assert_eq!(one, vec![7.5]);
}

#[test]
fn periodic_distance_uses_nearest_image() {
    assert_eq!(periodic_sq_distance(0, 0, 4, 4), 0);
    assert_eq!(periodic_sq_distance(1, 0, 4, 4), 1);
    assert_eq!(periodic_sq_distance(3, 0, 4, 4), 1);
    assert_eq!(periodic_sq_distance(2, 2, 4, 4), 8);
    assert_eq!(periodic_sq_distance(3, 3, 5, 5), 8);
    assert_eq!(periodic_sq_distance(1, 4, 5, 5), 2);
    assert_eq!(periodic_sq_distance(2, 1, 6, 3), 5);
}
