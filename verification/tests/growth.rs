use pixy_tree::growth::{child_depth, iteration_count, GrowthNodeType};

#[test]
fn renderable_kinds() {
    assert!(GrowthNodeType::Meristem.is_renderable());
    assert!(GrowthNodeType::Branch.is_renderable());
    assert!(GrowthNodeType::Ignored.is_renderable());
    assert!(GrowthNodeType::Flower.is_renderable());
    assert!(!GrowthNodeType::Cut.is_renderable());
    assert!(!GrowthNodeType::Dormant.is_renderable());
}

#[test]
fn trunk_children_restart_depth() {
    assert_eq!(child_depth(GrowthNodeType::Ignored, 5), 0);
    assert_eq!(child_depth(GrowthNodeType::Branch, 5), 6);
    assert_eq!(child_depth(GrowthNodeType::Meristem, 0), 1);
}

#[test]
fn preview_limits_iterations() {
    assert_eq!(iteration_count(-1, 5), 5);
    assert_eq!(iteration_count(2, 5), 2);
    assert_eq!(iteration_count(9, 5), 5);
    assert_eq!(iteration_count(0, 5), 0);
}

use pixy_tree::growth::{growth_step, GrowthStep, VigorReading, MAX_RULE_DEPTH};

fn reading(below_cut: bool, flowers: bool, grows: bool, splits: bool) -> VigorReading {
    VigorReading { below_cut, flowers, grows, splits, thickens: false, activates: false }
}

#[test]
fn weak_tip_is_cut_and_pruned() {
    let step = growth_step(GrowthNodeType::Meristem, reading(true, false, false, false), 3, 0);
    assert_eq!(step.next_type, GrowthNodeType::Cut);
    assert!(step.prune_children);
    assert!(!step.ages && !step.extends && !step.splits && !step.visits_children);
}

#[test]
fn tip_in_flower_band_flowers() {
    let step = growth_step(GrowthNodeType::Meristem, reading(false, true, true, true), 0, 0);
    assert_eq!(step.next_type, GrowthNodeType::Flower);
    assert!(!step.extends && !step.splits && !step.ages);
}

#[test]
fn vigorous_tip_extends_and_splits() {
    let step = growth_step(GrowthNodeType::Meristem, reading(false, false, true, true), 0, 0);
    assert_eq!(
        step,
        GrowthStep {
            next_type: GrowthNodeType::Branch,
            prune_children: false,
            ages: true,
            thickens: false,
            extends: true,
            splits: true,
            visits_children: true,
        }
    );
    let crowded = growth_step(GrowthNodeType::Meristem, reading(false, false, true, true), 1, 0);
    assert!(crowded.extends);
    assert!(!crowded.splits);
    let no_extension = growth_step(GrowthNodeType::Meristem, reading(false, false, false, true), 1, 0);
    assert_eq!(no_extension.next_type, GrowthNodeType::Meristem);
    assert!(no_extension.splits);
}

#[test]
fn dormant_bud_waits_until_activated() {
    let mut r = reading(false, false, false, false);
    let waiting = growth_step(GrowthNodeType::Dormant, r, 0, 2);
    assert_eq!(waiting.next_type, GrowthNodeType::Dormant);
    assert!(waiting.visits_children && !waiting.ages && !waiting.extends);
    r.activates = true;
    r.thickens = true;
    let active = growth_step(GrowthNodeType::Dormant, r, 0, 2);
    assert_eq!(active.next_type, GrowthNodeType::Branch);
    assert!(active.extends && active.ages && active.thickens && !active.splits);
}

#[test]
fn branches_age_and_trunk_only_ages() {
    let mut r = reading(true, true, true, true);
    r.thickens = true;
    let branch = growth_step(GrowthNodeType::Branch, r, 4, 1);
    assert_eq!(branch.next_type, GrowthNodeType::Branch);
    assert!(branch.ages && branch.thickens && branch.visits_children && !branch.extends);
    let trunk = growth_step(GrowthNodeType::Ignored, r, 4, 1);
    assert_eq!(trunk.next_type, GrowthNodeType::Ignored);
    assert!(trunk.ages && !trunk.thickens && trunk.visits_children);
}

#[test]
fn final_kinds_and_deep_nodes_are_left_alone() {
    let r = reading(false, false, true, true);
    for t in [GrowthNodeType::Cut, GrowthNodeType::Flower] {
        let step = growth_step(t, r, 0, 0);
        assert_eq!(step.next_type, t);
        assert!(!step.ages && !step.extends && !step.visits_children);
    }
    let deep = growth_step(GrowthNodeType::Meristem, r, 0, MAX_RULE_DEPTH + 1);
    assert_eq!(deep.next_type, GrowthNodeType::Meristem);
    assert!(!deep.extends && !deep.visits_children);
    let at_limit = growth_step(GrowthNodeType::Meristem, r, 0, MAX_RULE_DEPTH);
    assert!(at_limit.extends);
}

#[test]
fn trunk_walk_follows_trunk_and_tips() {
    assert!(GrowthNodeType::Ignored.continues_trunk());
    assert!(GrowthNodeType::Meristem.continues_trunk());
    assert!(!GrowthNodeType::Branch.continues_trunk());
    assert!(!GrowthNodeType::Dormant.continues_trunk());
}
