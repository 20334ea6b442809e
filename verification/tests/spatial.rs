use pixy_tree::spatial::SpatialCells;

#[test]
fn inserted_index_is_found_by_overlapping_query() {
    let mut cells = SpatialCells::new();
    cells.insert_range(7, (0, 0, 0), (1, 2, 0));
    assert_eq!(cells.query_range((1, 1, 0), (5, 5, 5)), vec![7]);
    assert_eq!(cells.get_cell((1, 2, 0)), vec![7]);
    assert!(cells.get_cell((2, 2, 0)).is_empty());
}

#[test]
fn disjoint_query_finds_nothing() {
    let mut cells = SpatialCells::new();
    cells.insert_range(3, (-2, -2, -2), (-1, -1, -1));
    assert!(cells.query_range((0, 0, 0), (4, 4, 4)).is_empty());
}

#[test]
fn query_lists_each_index_once_in_sweep_order() {
    let mut cells = SpatialCells::new();
    cells.insert_range(5, (0, 0, 0), (2, 0, 0));
    cells.insert_range(2, (1, 0, 0), (1, 0, 0));
    cells.insert_range(9, (2, 0, 0), (3, 0, 0));
    assert_eq!(cells.query_range((0, 0, 0), (3, 0, 0)), vec![5, 2, 9]);
    assert_eq!(cells.get_cell((1, 0, 0)), vec![5, 2]);
}

#[test]
fn extreme_coordinates_are_distinct_cells() {
    let mut cells = SpatialCells::new();
    cells.push_at((i32::MIN, i32::MAX, 0), 1);
    cells.push_at((i32::MAX, i32::MIN, 0), 2);
    assert_eq!(cells.get_cell((i32::MIN, i32::MAX, 0)), vec![1]);
    assert_eq!(cells.get_cell((i32::MAX, i32::MIN, 0)), vec![2]);
    assert_eq!(cells.query_range((i32::MAX, i32::MIN, 0), (i32::MAX, i32::MIN, 0)), vec![2]);
}

#[test]
fn push_once_keeps_a_single_entry() {
    let mut cells = SpatialCells::new();
    cells.push_at_once((4, 4, 4), 1);
    cells.push_at_once((4, 4, 4), 1);
    cells.push_at_once((4, 4, 4), 3);
    assert_eq!(cells.get_cell((4, 4, 4)), vec![1, 3]);
}

#[test]
fn neighbourhood_query_around_a_cell() {
    let mut cells = SpatialCells::new();
    cells.push_at((0, 0, 0), 0);
    cells.push_at((1, 1, 1), 1);
    cells.push_at((2, 2, 2), 2);
    let mut found = cells.query_range((0, 0, 0), (2, 2, 2));
    found.sort();
    assert_eq!(found, vec![0, 1, 2]);
    assert_eq!(cells.query_range((-1, -1, -1), (1, 1, 1)), vec![0, 1]);
}
