use pixy_tree::indices::{
    add_cap_fan, add_double_sided_quad_indices, add_quad, add_ring_grid, add_triangle_indices,
    extend_indices,
};

#[test]
fn extend_offsets_the_other_mesh() {
    let mut indices = vec![0, 1, 2];
    extend_indices(&mut indices, &[0, 2, 1], 3);
    assert_eq!(indices, vec![0, 1, 2, 3, 5, 4]);
}

#[test]
fn extend_with_empty_mesh_changes_nothing() {
    let mut indices = vec![4, 5, 6];
    extend_indices(&mut indices, &[], 7);
    assert_eq!(indices, vec![4, 5, 6]);
}

#[test]
fn quad_is_two_outward_triangles() {
    let mut indices = Vec::new();
    add_quad(&mut indices, 10, 11, 12, 13);
    assert_eq!(indices, vec![10, 12, 11, 10, 13, 12]);
}

#[test]
fn triangle_uses_three_new_vertices() {
    let mut indices = vec![9];
    add_triangle_indices(&mut indices, 6);
    assert_eq!(indices, vec![9, 6, 7, 8]);
}

#[test]
fn double_sided_quad_front_and_back() {
    let mut indices = Vec::new();
    add_double_sided_quad_indices(&mut indices, 8);
    assert_eq!(indices, vec![8, 9, 10, 8, 10, 11, 12, 14, 13, 12, 15, 14]);
}

#[test]
fn collar_grid_has_72_indices() {
    // 3 rings of a 6-segment collar: 2 ring gaps * 6 segments * 2 triangles * 3
    let mut indices = Vec::new();
    add_ring_grid(&mut indices, 3, 6);
    assert_eq!(indices.len(), 72);
    assert_eq!(&indices[0..6], &[0, 1, 7, 1, 8, 7]);
    assert!(indices.iter().all(|&i| (0..21).contains(&i)));
}

#[test]
fn single_ring_grid_is_empty() {
    let mut indices = Vec::new();
    add_ring_grid(&mut indices, 1, 8);
    assert!(indices.is_empty());
}

#[test]
fn cap_fans_face_down_and_up() {
    let mut down = Vec::new();
    add_cap_fan(&mut down, 20, 3, true);
    assert_eq!(down, vec![20, 22, 21, 20, 23, 22, 20, 24, 23]);
    let mut up = Vec::new();
    add_cap_fan(&mut up, 20, 3, false);
    assert_eq!(up, vec![20, 21, 22, 20, 22, 23, 20, 23, 24]);
}

#[test]
fn cap_fan_around_a_negative_centre() {
    let mut indices = Vec::new();
    add_cap_fan(&mut indices, -5, 2, false);
    assert_eq!(indices, vec![-5, -4, -3, -5, -3, -2]);
}
