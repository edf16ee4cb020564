use heightfield::grid::{coords_of, index_of, sample_points};

#[test]
fn index_of_is_row_major() {
    assert_eq!(index_of(5, 4, 0, 0), 0);
    assert_eq!(index_of(5, 4, 4, 0), 4);
    assert_eq!(index_of(5, 4, 0, 1), 5);
    assert_eq!(index_of(5, 4, 3, 2), 13);
}

#[test]
fn coords_of_inverts_index_of() {
    assert_eq!(coords_of(5, 13), (3, 2));
    assert_eq!(coords_of(5, 0), (0, 0));
    assert_eq!(coords_of(5, 4), (4, 0));
    for i in 0..20 {
        let (x, y) = coords_of(5, i);
        assert_eq!(index_of(5, 4, x, y), i);
    }
}

#[test]
fn sample_points_row_major_order() {
    let pts = sample_points(3, 2);
    assert_eq!(pts, vec![(0, 0), (1, 0), (2, 0), (0, 1), (1, 1), (2, 1)]);
}

#[test]
fn sample_points_empty_grid() {
    assert_eq!(sample_points(0, 7), vec![]);
    assert_eq!(sample_points(7, 0), vec![]);
}
