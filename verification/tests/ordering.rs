use pixy_tree::ordering::{child_lists, leaves_first_order};

#[test]
fn child_lists_follow_parent_links_in_index_order() {
    let parent_of = vec![None, Some(0), Some(1), Some(0), Some(0)];
    assert_eq!(child_lists(&parent_of), vec![vec![1, 3, 4], vec![2], vec![], vec![], vec![]]);
}

#[test]
fn child_lists_of_nothing_is_empty() {
    assert!(child_lists(&[]).is_empty());
}

#[test]
fn chained_equal_depth_segments_are_walked_top_down() {
    // three segments stacked bottom to top, each the parent of the next:
    // a bottom-up walk must visit the top one first
    let parent_of = vec![None, Some(0), Some(1)];
    let children_of = child_lists(&parent_of);
    assert_eq!(leaves_first_order(&parent_of, &children_of), vec![2, 1, 0]);
}

#[test]
fn leaves_come_before_parents() {
    // 0 -> 1 -> 2 (chain), 0 -> 3 (side branch)
    let parent_of = vec![None, Some(0), Some(1), Some(0)];
    let children_of = vec![vec![1, 3], vec![2], vec![], vec![]];
    let order = leaves_first_order(&parent_of, &children_of);
    assert_eq!(order, vec![2, 3, 1, 0]);
}

#[test]
fn separate_roots_are_all_ordered() {
    let parent_of = vec![None, None, Some(0)];
    let children_of = vec![vec![2], vec![], vec![]];
    let order = leaves_first_order(&parent_of, &children_of);
    assert_eq!(order, vec![1, 2, 0]);
}

#[test]
fn looping_links_go_last_in_index_order() {
    // 1 and 2 are each other's parent; 0 is a lone leaf
    let parent_of = vec![None, Some(2), Some(1)];
    let children_of = vec![vec![], vec![2], vec![1]];
    let order = leaves_first_order(&parent_of, &children_of);
    assert_eq!(order, vec![0, 1, 2]);
}

#[test]
fn parents_follow_the_order_of_their_last_child() {
    // leaves 2, 3, 4; node 0 has children 3 and 4, node 1 has child 2:
    // 1 is ready once 2 is taken, 0 only after 4
    let parent_of = vec![None, None, Some(1), Some(0), Some(0)];
    let children_of = child_lists(&parent_of);
    assert_eq!(leaves_first_order(&parent_of, &children_of), vec![2, 3, 4, 1, 0]);
}
