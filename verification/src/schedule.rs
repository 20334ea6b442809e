use vstd::prelude::*;

verus! {

/// The most segments that breadth-first branch growth produces.
pub const MAX_GROWTH_SEGMENTS: usize = 50_000;

/// What breadth-first branch growth does on the turn of one queued segment.
#[derive(Clone, Copy, Debug, PartialEq, Eq, Structural)]
pub struct GrowthTurn {
    /// growth ends here: the segment cap is reached
    pub stop: bool,
    /// gravity bends the queued segments before this one grows
    pub run_gravity: bool,
    /// segments left in the current generation, this one included
    pub batch_left: usize,
}

/// Decides the turn of the segment just taken off the queue, when
/// `batch_left` segments of the current generation were left,
/// `segment_count` segments exist and `queue_len` are still queued: growth
/// stops once the cap is reached; otherwise, when the generation is used
/// up, gravity runs on the queued segments and a new generation of
/// `queue_len` segments begins.
pub fn growth_turn(batch_left: usize, segment_count: usize, queue_len: usize) -> (t: GrowthTurn)
    ensures
        t.stop == (segment_count >= MAX_GROWTH_SEGMENTS),
        t.run_gravity == (!t.stop && batch_left == 0),
        t.batch_left == if t.run_gravity {
            queue_len
        } else {
            batch_left
        },
{
    if segment_count >= MAX_GROWTH_SEGMENTS {
        GrowthTurn { stop: true, run_gravity: false, batch_left }
    } else if batch_left == 0 {
        GrowthTurn { stop: false, run_gravity: true, batch_left: queue_len }
    } else {
        GrowthTurn { stop: false, run_gravity: false, batch_left }
    }
}

/// After a segment has grown, one fewer is left in its generation (never
/// fewer than none).
pub fn turn_done(batch_left: usize) -> (r: usize)
    ensures
        r == if batch_left > 0 {
            batch_left - 1
        } else {
            0
        },
{
    batch_left.saturating_sub(1)
}

} // verus!
