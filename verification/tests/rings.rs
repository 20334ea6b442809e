use pixy_tree::rings::{
    add_junction_quads, bridge_circles, child_ring_size, get_child_index_order,
    is_index_in_branch_mask, CircleDesignator, IndexRange,
};

#[test]
fn plain_range_mask() {
    let mask = [IndexRange { min_index: 2, max_index: 4 }];
    assert!(!is_index_in_branch_mask(&mask, 1, 8));
    assert!(is_index_in_branch_mask(&mask, 2, 8));
    assert!(is_index_in_branch_mask(&mask, 3, 8));
    assert!(!is_index_in_branch_mask(&mask, 4, 8));
}

#[test]
fn wrapping_range_mask() {
    // [7, 1) on a ring of 8 wraps past zero: 7 and 0 are masked
    let mask = [IndexRange { min_index: 7, max_index: 1 }];
    assert!(is_index_in_branch_mask(&mask, 7, 8));
    assert!(is_index_in_branch_mask(&mask, 0, 8));
    assert!(!is_index_in_branch_mask(&mask, 1, 8));
    assert!(!is_index_in_branch_mask(&mask, 6, 8));
}

#[test]
fn empty_mask_masks_nothing() {
    assert!(!is_index_in_branch_mask(&[], 0, 8));
}

#[test]
fn bridge_without_mask_makes_one_quad_per_position() {
    let first = CircleDesignator { vertex_index: 0, uv_index: 0, radial_n: 4 };
    let second = CircleDesignator { vertex_index: 5, uv_index: 5, radial_n: 4 };
    let mut indices = Vec::new();
    bridge_circles(&first, &second, 4, &mut indices, None);
    assert_eq!(indices.len(), 24);
    assert_eq!(&indices[0..6], &[0, 6, 1, 0, 5, 6]);
}

#[test]
fn bridge_skips_masked_positions() {
    let first = CircleDesignator { vertex_index: 0, uv_index: 0, radial_n: 8 };
    let second = CircleDesignator { vertex_index: 9, uv_index: 9, radial_n: 8 };
    let mask = [IndexRange { min_index: 2, max_index: 4 }];
    let mut indices = Vec::new();
    bridge_circles(&first, &second, 8, &mut indices, Some(&mask));
    assert_eq!(indices.len(), 6 * 6);
    assert!(!indices.chunks(6).any(|q| q[0] == 2 || q[0] == 3));
}

#[test]
fn child_index_order_walks_lower_then_upper() {
    let parent = CircleDesignator { vertex_index: 100, uv_index: 0, radial_n: 8 };
    let range = IndexRange { min_index: 6, max_index: 1 };
    let order = get_child_index_order(&parent, 6, &range);
    // lower: (6+i)%8 + 100 for i in 0..3; upper = lower + 9, mirrored
    assert_eq!(order, vec![106, 107, 100, 109, 116, 115]);
}

#[test]
fn odd_child_ring_keeps_middle_zero() {
    let parent = CircleDesignator { vertex_index: 10, uv_index: 0, radial_n: 4 };
    let range = IndexRange { min_index: 1, max_index: 2 };
    let order = get_child_index_order(&parent, 5, &range);
    assert_eq!(order, vec![11, 12, 0, 17, 16]);
}

#[test]
fn child_ring_sizes() {
    assert_eq!(child_ring_size(&IndexRange { min_index: 2, max_index: 4 }, 8), 6);
    assert_eq!(child_ring_size(&IndexRange { min_index: 7, max_index: 1 }, 8), 6);
    assert_eq!(child_ring_size(&IndexRange { min_index: 3, max_index: 3 }, 8), 4);
}

#[test]
fn junction_quads_follow_offset() {
    let polygon = vec![50, 51, 52, 53];
    let child = CircleDesignator { vertex_index: 60, uv_index: 0, radial_n: 4 };
    let mut indices = Vec::new();
    add_junction_quads(&polygon, &child, 1, &mut indices);
    assert_eq!(indices.len(), 24);
    // first quad: polygon[1], polygon[2], 61, 60 -> v0 v2 v1 v0 v3 v2
    assert_eq!(&indices[0..6], &[51, 61, 52, 51, 60, 61]);
    // last quad wraps the polygon: polygon[0], polygon[1], 64, 63
    assert_eq!(&indices[18..24], &[50, 64, 51, 50, 63, 64]);
}

#[test]
fn negative_positions_use_truncated_remainder() {
    // wrapping range [-3, -5) on a ring of 8: turned by 4 it becomes [1, -1)
    // (remainders keep the sign), which holds no position
    let mask = [IndexRange { min_index: -3, max_index: -5 }];
    assert!(!is_index_in_branch_mask(&mask, 1, 8));
    // a plain range with a negative start holds the positions below its end
    let plain = [IndexRange { min_index: -2, max_index: 1 }];
    assert!(is_index_in_branch_mask(&plain, 0, 8));
    assert!(is_index_in_branch_mask(&plain, -1, 8));
    assert!(!is_index_in_branch_mask(&plain, 1, 8));
}

#[test]
fn span_one_short_of_a_full_turn_gives_the_minimum_ring() {
    // (-9 + 8) % 8 == -1, so the width is zero and the ring gets four vertices
    assert_eq!(child_ring_size(&IndexRange { min_index: 9, max_index: 0 }, 8), 4);
}

#[test]
fn plain_ranges_need_no_ring_size() {
    let mask = [IndexRange { min_index: 0, max_index: 3 }];
    assert!(is_index_in_branch_mask(&mask, 1, 0));
    assert!(!is_index_in_branch_mask(&mask, 3, 0));
}

#[test]
fn bridge_indices_stay_on_the_two_rings() {
    let first = CircleDesignator { vertex_index: 10, uv_index: 0, radial_n: 6 };
    let second = CircleDesignator { vertex_index: 30, uv_index: 0, radial_n: 6 };
    let mask = [IndexRange { min_index: 5, max_index: 1 }];
    let mut indices = Vec::new();
    bridge_circles(&first, &second, 6, &mut indices, Some(&mask));
    assert!(indices.iter().all(|&i| (10..=16).contains(&i) || (30..=36).contains(&i)));
}

#[test]
fn junction_indices_use_polygon_and_base_ring() {
    let parent = CircleDesignator { vertex_index: 100, uv_index: 0, radial_n: 8 };
    let range = IndexRange { min_index: 6, max_index: 1 };
    let polygon = get_child_index_order(&parent, 6, &range);
    assert!(polygon.iter().all(|&v| (100..108).contains(&v) || (109..117).contains(&v)));
    let child = CircleDesignator { vertex_index: 200, uv_index: 0, radial_n: 6 };
    let mut indices = Vec::new();
    add_junction_quads(&polygon, &child, 2, &mut indices);
    assert!(indices
        .iter()
        .all(|&i| polygon.contains(&(i as usize)) || (200..=206).contains(&i)));
}
