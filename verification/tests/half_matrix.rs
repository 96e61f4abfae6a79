use force_graph::half_matrix::pair_count;
use force_graph::half_matrix::pair_index;
use force_graph::half_matrix::HalfMatrix;

#[test]
fn pair_count_small_sizes() {
    assert_eq!(pair_count(0), 0);
    assert_eq!(pair_count(1), 0);
    assert_eq!(pair_count(2), 1);
    assert_eq!(pair_count(4), 6);
    assert_eq!(pair_count(10), 45);
}

#[test]
fn pair_index_enumerates_pairs_in_order() {
    let cases = [
        ((0, 1), 0),
        ((0, 2), 1),
        ((0, 3), 2),
        ((1, 2), 3),
        ((1, 3), 4),
        ((2, 3), 5),
    ];
    for ((i, j), idx) in cases {
        assert_eq!(pair_index(i, j, 4), idx);
    }
}

#[test]
fn pair_index_covers_each_cell_once() {
    let n = 7;
    let mut seen = vec![false; pair_count(n)];
    for i in 0..n {
        for j in (i + 1)..n {
            let idx = pair_index(i, j, n);
            assert!(!seen[idx]);
            seen[idx] = true;
        }
    }
    assert!(seen.iter().all(|s| *s));
}

#[test]
fn half_matrix_is_symmetric_and_cells_are_independent() {
    let mut distances: HalfMatrix<f64> = HalfMatrix::new(5, 0.0);
    assert_eq!(distances.n(), 5);
    distances.set(1, 3, 2.5);
    distances.set(4, 0, 1.25);

    assert_eq!(*distances.get(1, 3), 2.5);
    assert_eq!(*distances.get(3, 1), 2.5);
    assert_eq!(*distances.get(0, 4), 1.25);
    assert_eq!(*distances.get(4, 0), 1.25);
    assert_eq!(*distances.get(1, 2), 0.0);
    assert_eq!(*distances.get(2, 3), 0.0);

    // overwriting one pair leaves every other pair alone
    distances.set(3, 1, 9.0);
    assert_eq!(*distances.get(1, 3), 9.0);
    assert_eq!(*distances.get(0, 4), 1.25);
    assert_eq!(*distances.get(2, 3), 0.0);
}
