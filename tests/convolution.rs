use sir_ddft::convolution_terms;

#[test]
fn terms_on_even_axis() {
    assert_eq!(convolution_terms(1, 4), vec![(0, 1), (1, 0), (1, 2), (2, 3)]);
}

#[test]
fn terms_on_odd_axis() {
    assert_eq!(convolution_terms(0, 5), vec![(0, 0), (1, 4), (1, 1), (2, 3), (2, 2)]);
    assert_eq!(convolution_terms(4, 5), vec![(0, 4), (1, 3), (1, 0), (2, 2), (2, 1)]);
}

#[test]
fn terms_on_single_point() {
    assert_eq!(convolution_terms(0, 1), vec![(0, 0)]);
}

#[test]
fn terms_visit_each_point_once_at_its_distance() {
    for n in 1..30usize {
        for offset in 0..n {
            let terms = convolution_terms(offset, n);
            assert_eq!(terms.len(), n);
            let mut seen = vec![false; n];
            for &(d, j) in &terms {
                assert!(!seen[j]);
                seen[j] = true;
                let fwd = (j + n - offset) % n;
                assert_eq!(d, fwd.min(n - fwd));
            }
        }
    }
}

#[test]
fn terms_on_largest_offset_of_even_axis() {
    assert_eq!(
        convolution_terms(5, 6),
        vec![(0, 5), (1, 4), (1, 0), (2, 3), (2, 1), (3, 2)]
    );
}
