use sir_ddft::worker_ranges;

#[test]
fn ranges_for_four_workers() {
    assert_eq!(worker_ranges(10, 4), vec![(0, 3), (3, 6), (6, 9), (9, 10)]);
}

#[test]
fn ranges_for_one_worker() {
    assert_eq!(worker_ranges(10, 1), vec![(0, 10)]);
}

#[test]
fn ranges_for_no_worker_fall_back_to_one() {
    assert_eq!(worker_ranges(10, 0), vec![(0, 10)]);
}

#[test]
fn ranges_of_nothing() {
    assert!(worker_ranges(0, 4).is_empty());
}

#[test]
fn ranges_leave_idle_workers() {
    assert_eq!(worker_ranges(5, 4), vec![(0, 2), (2, 4), (4, 5)]);
    assert_eq!(worker_ranges(3, 8), vec![(0, 1), (1, 2), (2, 3)]);
}

#[test]
fn ranges_cover_every_item_once() {
    for n in 1..40usize {
        for workers in 1..9usize {
            let r = worker_ranges(n, workers);
            assert!(r.len() <= workers);
            let mut seen = vec![0u32; n];
            for &(start, end) in &r {
                assert!(start < end);
                for j in start..end {
                    seen[j] += 1;
                }
            }
            assert!(seen.iter().all(|&c| c == 1));
        }
    }
}
