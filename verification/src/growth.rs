use vstd::prelude::*;

verus! {

/// Growth state of a node of the growth simulation.
#[derive(Clone, Copy, Debug, PartialEq, Eq, Structural)]
pub enum GrowthNodeType {
    /// Active growing tip that can extend
    Meristem,
    /// Interior node that has already grown
    Branch,
    /// Pruned branch (vigor fell below the cut threshold)
    Cut,
    /// Initial trunk structure (the growth rules only age it)
    Ignored,
    /// Inactive bud waiting for activation
    Dormant,
    /// Converted to a flower attachment point
    Flower,
}

/// Nodes of these kinds are drawn; cut branches and dormant buds are not.
pub open spec fn renderable(t: GrowthNodeType) -> bool {
    match t {
        GrowthNodeType::Meristem | GrowthNodeType::Branch | GrowthNodeType::Ignored
        | GrowthNodeType::Flower => true,
        GrowthNodeType::Cut | GrowthNodeType::Dormant => false,
    }
}

impl GrowthNodeType {
    /// Whether a node of this kind should be rendered.
    pub fn is_renderable(&self) -> (r: bool)
        ensures
            r == renderable(*self),
            // everything is drawn but cut branches and waiting buds
            r <==> !(*self == GrowthNodeType::Cut || *self == GrowthNodeType::Dormant),
    {
        match self {
            GrowthNodeType::Meristem | GrowthNodeType::Branch | GrowthNodeType::Ignored
            | GrowthNodeType::Flower => true,
            GrowthNodeType::Cut | GrowthNodeType::Dormant => false,
        }
    }
}

/// The branch depth given to the children of a node: the trunk's children
/// start again at depth zero, every other node's children sit one deeper.
pub fn child_depth(parent: GrowthNodeType, depth: u8) -> (d: u8)
    requires
        parent != GrowthNodeType::Ignored ==> depth < 255,
    ensures
        d == if parent == GrowthNodeType::Ignored {
            0
        } else {
            depth + 1
        },
{
    if parent == GrowthNodeType::Ignored {
        0
    } else {
        depth + 1
    }
}

/// The number of growth iterations to run: all of them, or when a preview
/// iteration is set (non-negative), at most that many.
pub fn iteration_count(preview_iteration: i32, iterations: u32) -> (n: u32)
    ensures
        n == if preview_iteration >= 0 {
            if (preview_iteration as u32) < iterations {
                preview_iteration as u32
            } else {
                iterations
            }
        } else {
            iterations
        },
{
    if preview_iteration >= 0 {
        let p = preview_iteration as u32;
        if p < iterations {
            p
        } else {
            iterations
        }
    } else {
        iterations
    }
}

impl GrowthNodeType {
    /// Whether walking up the trunk continues into a first child of this kind:
    /// the trunk runs through the initial trunk nodes and the growing tip above them.
    pub fn continues_trunk(&self) -> (r: bool)
        ensures
            r == (*self == GrowthNodeType::Ignored || *self == GrowthNodeType::Meristem),
    {
        match self {
            GrowthNodeType::Ignored | GrowthNodeType::Meristem => true,
            _ => false,
        }
    }
}

/// Nodes deeper than this are left alone by the growth rules.
pub const MAX_RULE_DEPTH: u32 = 50;

/// A node's vigor compared against the thresholds of the growth rules.
#[derive(Clone, Copy, Debug, PartialEq, Eq, Structural)]
pub struct VigorReading {
    /// vigor is below the cut threshold
    pub below_cut: bool,
    /// flowering is enabled and vigor lies in [cut threshold, flower threshold)
    pub flowers: bool,
    /// vigor reaches the grow threshold
    pub grows: bool,
    /// vigor exceeds the split threshold
    pub splits: bool,
    /// secondary growth is enabled and vigor exceeds the grow threshold
    pub thickens: bool,
    /// vigor reaches the lateral activation threshold
    pub activates: bool,
}

/// What one application of the growth rules does to a node.
#[derive(Clone, Copy, Debug, PartialEq, Eq, Structural)]
pub struct GrowthStep {
    /// the node's kind afterwards
    pub next_type: GrowthNodeType,
    /// the node loses all its children
    pub prune_children: bool,
    /// the node's age goes up by one
    pub ages: bool,
    /// the node's radius is recomputed from its age (secondary growth)
    pub thickens: bool,
    /// a growing extension is added as a new child
    pub extends: bool,
    /// a side branch is split off as a new child
    pub splits: bool,
    /// the rules go on into the children the node had before the step
    pub visits_children: bool,
}

/// The step in which nothing happens and the walk stops at the node.
pub open spec fn idle_step(t: GrowthNodeType) -> GrowthStep {
    GrowthStep {
        next_type: t,
        prune_children: false,
        ages: false,
        thickens: false,
        extends: false,
        splits: false,
        visits_children: false,
    }
}

/// The growth rules, for a node of kind `t` at `depth` with `child_count`
/// children, whose vigor reads `r`:
/// - a growing tip is cut when its vigor is too low, turns into a flower
///   when flowering applies, and otherwise ages, may thicken, extends when
///   vigor reaches the grow threshold (becoming an interior branch), and
///   splits off a side branch when vigor exceeds the split threshold while
///   it would still have fewer than two children;
/// - a dormant bud that is activated grows like a tip and becomes a branch;
///   otherwise it waits;
/// - an interior branch ages and may thicken; the trunk only ages;
/// - cut branches and flowers never change;
/// - nodes deeper than the depth limit are left alone.
pub open spec fn growth_rule(t: GrowthNodeType, r: VigorReading, child_count: nat, depth: nat) -> GrowthStep {
    if depth > MAX_RULE_DEPTH {
        idle_step(t)
    } else {
        match t {
            GrowthNodeType::Meristem => if r.below_cut {
                GrowthStep { next_type: GrowthNodeType::Cut, prune_children: true, ..idle_step(t) }
            } else if r.flowers {
                idle_step(GrowthNodeType::Flower)
            } else {
                GrowthStep {
                    next_type: if r.grows { GrowthNodeType::Branch } else { GrowthNodeType::Meristem },
                    prune_children: false,
                    ages: true,
                    thickens: r.thickens,
                    extends: r.grows,
                    splits: r.splits && child_count + (if r.grows { 1int } else { 0int }) < 2,
                    visits_children: true,
                }
            },
            GrowthNodeType::Dormant => if r.activates {
                GrowthStep {
                    next_type: GrowthNodeType::Branch,
                    prune_children: false,
                    ages: true,
                    thickens: r.thickens,
                    extends: true,
                    splits: false,
                    visits_children: true,
                }
            } else {
                GrowthStep { visits_children: true, ..idle_step(t) }
            },
            GrowthNodeType::Branch => GrowthStep {
                ages: true,
                thickens: r.thickens,
                visits_children: true,
                ..idle_step(t)
            },
            GrowthNodeType::Ignored => GrowthStep { ages: true, visits_children: true, ..idle_step(t) },
            GrowthNodeType::Cut | GrowthNodeType::Flower => idle_step(t),
        }
    }
}

/// Decides what the growth rules do to one node in one iteration.
pub fn growth_step(node_type: GrowthNodeType, reading: VigorReading, child_count: usize, depth: u32) -> (step: GrowthStep)
    ensures
        step == growth_rule(node_type, reading, child_count as nat, depth as nat),
        // A node takes part in an iteration (ages) when it is within the depth
        // limit and is an interior branch, the trunk, a tip that is neither cut
        // nor flowering, or an activated bud.
        step.ages <==> depth <= MAX_RULE_DEPTH && (node_type == GrowthNodeType::Branch || node_type
            == GrowthNodeType::Ignored || (node_type == GrowthNodeType::Meristem && !reading.below_cut
            && !reading.flowers) || (node_type == GrowthNodeType::Dormant && reading.activates)),
        // Secondary growth thickens every node that ages, except the trunk.
        step.thickens <==> step.ages && reading.thickens && node_type != GrowthNodeType::Ignored,
        // A tip that ages extends exactly when vigor reaches the grow threshold;
        // an activated bud always extends; nothing else extends.
        step.extends <==> step.ages && ((node_type == GrowthNodeType::Meristem && reading.grows)
            || node_type == GrowthNodeType::Dormant),
        // A node that extends becomes an interior branch.
        step.extends ==> step.next_type == GrowthNodeType::Branch,
        // Only a tip that ages splits, when vigor exceeds the split threshold and
        // it would otherwise have fewer than two children.
        step.splits <==> step.ages && node_type == GrowthNodeType::Meristem && reading.splits
            && child_count + (if reading.grows { 1int } else { 0int }) < 2,
        // Tips are cut exactly when vigor is below the cut threshold; they flower
        // when flowering applies; children are pruned only when cut.
        (depth <= MAX_RULE_DEPTH && node_type == GrowthNodeType::Meristem && reading.below_cut)
            <==> step.next_type == GrowthNodeType::Cut && node_type != GrowthNodeType::Cut,
        step.prune_children <==> step.next_type == GrowthNodeType::Cut && node_type != GrowthNodeType::Cut,
        (depth <= MAX_RULE_DEPTH && node_type == GrowthNodeType::Meristem && !reading.below_cut
            && reading.flowers) <==> step.next_type == GrowthNodeType::Flower && node_type
            != GrowthNodeType::Flower,
        // Otherwise a node keeps its kind, except a tip that grows and an
        // activated bud, which become branches.
        step.next_type != node_type ==> node_type == GrowthNodeType::Meristem || node_type
            == GrowthNodeType::Dormant,
        // The walk goes on into the children unless the node is beyond the
        // depth limit, final, or was just cut or turned into a flower.
        step.visits_children <==> depth <= MAX_RULE_DEPTH && node_type != GrowthNodeType::Cut
            && node_type != GrowthNodeType::Flower && !(node_type == GrowthNodeType::Meristem && (
            reading.below_cut || reading.flowers)),
{
    let idle = GrowthStep {
        next_type: node_type,
        prune_children: false,
        ages: false,
        thickens: false,
        extends: false,
        splits: false,
        visits_children: false,
    };
    if depth > MAX_RULE_DEPTH {
        return idle;
    }
    match node_type {
        GrowthNodeType::Meristem => {
            if reading.below_cut {
                GrowthStep { next_type: GrowthNodeType::Cut, prune_children: true, ..idle }
            } else if reading.flowers {
                GrowthStep { next_type: GrowthNodeType::Flower, ..idle }
            } else {
                let children_after_extension = if reading.grows { 1 } else { 0 };
                GrowthStep {
                    next_type: if reading.grows { GrowthNodeType::Branch } else { GrowthNodeType::Meristem },
                    prune_children: false,
                    ages: true,
                    thickens: reading.thickens,
                    extends: reading.grows,
                    splits: reading.splits && child_count < 2 - children_after_extension,
                    visits_children: true,
                }
            }
        },
        GrowthNodeType::Dormant => {
            if reading.activates {
                GrowthStep {
                    next_type: GrowthNodeType::Branch,
                    prune_children: false,
                    ages: true,
                    thickens: reading.thickens,
                    extends: true,
                    splits: false,
                    visits_children: true,
                }
            } else {
                GrowthStep { visits_children: true, ..idle }
            }
        },
        GrowthNodeType::Branch => GrowthStep {
            ages: true,
            thickens: reading.thickens,
            visits_children: true,
            ..idle
        },
        GrowthNodeType::Ignored => GrowthStep { ages: true, visits_children: true, ..idle },
        GrowthNodeType::Cut | GrowthNodeType::Flower => idle,
    }
}

/// Cut branches and flowers are final: the growth rules never change them,
/// whatever their vigor, children or depth.
pub proof fn lemma_final_kinds_stay(t: GrowthNodeType, r: VigorReading, child_count: nat, depth: nat)
    requires
        t == GrowthNodeType::Cut || t == GrowthNodeType::Flower,
    ensures
        growth_rule(t, r, child_count, depth) == idle_step(t),
{
}

/// A node that grows an extension becomes an interior branch, and a node
/// that splits ends the step with at most two children.
pub proof fn lemma_growth_shapes(t: GrowthNodeType, r: VigorReading, child_count: nat, depth: nat)
    ensures
        growth_rule(t, r, child_count, depth).extends ==> growth_rule(t, r, child_count, depth).next_type
            == GrowthNodeType::Branch,
        growth_rule(t, r, child_count, depth).splits ==> child_count + (if growth_rule(t, r, child_count, depth).extends { 1int } else { 0int }) + 1 <= 2,
        growth_rule(t, r, child_count, depth).prune_children <==> (growth_rule(t, r, child_count, depth).next_type == GrowthNodeType::Cut && t != GrowthNodeType::Cut),
{
}

/// The trunk keeps its kind under the growth rules, and a node only ever
/// becomes a cut branch or a flower from a growing tip.
pub proof fn lemma_kind_changes(t: GrowthNodeType, r: VigorReading, child_count: nat, depth: nat)
    ensures
        t == GrowthNodeType::Ignored ==> growth_rule(t, r, child_count, depth).next_type == t,
        growth_rule(t, r, child_count, depth).next_type != t ==> (t == GrowthNodeType::Meristem || t == GrowthNodeType::Dormant),
        (growth_rule(t, r, child_count, depth).next_type == GrowthNodeType::Cut
            || growth_rule(t, r, child_count, depth).next_type == GrowthNodeType::Flower)
            && growth_rule(t, r, child_count, depth).next_type != t ==> t == GrowthNodeType::Meristem,
{
}

} // verus!
