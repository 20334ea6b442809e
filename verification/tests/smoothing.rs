use pixy_tree::adjacency::build_adjacency_map;

#[test]
fn test_build_adjacency_map() {
    // Simple triangle
    let indices = vec![0, 1, 2];
    let adj = build_adjacency_map(3, &indices);

    assert!(adj.get(&0).unwrap().contains(&1));
    assert!(adj.get(&0).unwrap().contains(&2));
    assert!(adj.get(&1).unwrap().contains(&0));
    assert!(adj.get(&1).unwrap().contains(&2));
    assert!(adj.get(&2).unwrap().contains(&0));
    assert!(adj.get(&2).unwrap().contains(&1));
}

#[test]
fn adjacency_of_a_fan_has_no_repeats() {
    // Four triangles around a centre vertex 4, as in a raised quad
    let indices = vec![0, 1, 4, 1, 2, 4, 2, 3, 4, 3, 0, 4];
    let adj = build_adjacency_map(5, &indices);
    assert_eq!(adj.len(), 5);
    let mut centre = adj.get(&4).unwrap().clone();
    centre.sort();
    assert_eq!(centre, vec![0, 1, 2, 3]);
    let mut corner = adj.get(&0).unwrap().clone();
    corner.sort();
    assert_eq!(corner, vec![1, 3, 4]);
}

#[test]
fn adjacency_is_symmetric_on_a_strip() {
    let indices = vec![0, 1, 2, 1, 3, 2, 2, 3, 4];
    let adj = build_adjacency_map(5, &indices);
    for v in 0..5usize {
        for &u in adj.get(&v).unwrap() {
            assert!(adj.get(&u).unwrap().contains(&v));
        }
    }
}

#[test]
fn adjacency_ignores_trailing_partial_triangle_and_unknown_vertices() {
    // The trailing pair (0, 5) is not a whole triangle; vertex 5 has no entry
    let indices = vec![0, 1, 5, 0, 5];
    let adj = build_adjacency_map(2, &indices);
    assert_eq!(adj.len(), 2);
    let mut zero = adj.get(&0).unwrap().clone();
    zero.sort();
    assert_eq!(zero, vec![1, 5]);
    assert!(adj.get(&5).is_none());
}

#[test]
fn adjacency_with_no_indices_is_empty_lists() {
    let adj = build_adjacency_map(3, &[]);
    assert_eq!(adj.len(), 3);
    for v in 0..3usize {
        assert!(adj.get(&v).unwrap().is_empty());
    }
}

#[test]
fn neighbours_are_listed_in_the_order_first_met() {
    let indices = vec![2, 0, 1, 0, 3, 2];
    let adj = build_adjacency_map(4, &indices);
    // triangle (2,0,1) then (0,3,2): pairs (a,b) (a,c) (b,a) (b,c) (c,a) (c,b)
    assert_eq!(adj.get(&0).unwrap(), &vec![2, 1, 3]);
    assert_eq!(adj.get(&2).unwrap(), &vec![0, 1, 3]);
    assert_eq!(adj.get(&1).unwrap(), &vec![2, 0]);
    assert_eq!(adj.get(&3).unwrap(), &vec![0, 2]);
}
