use pixy_tree::schedule::{growth_turn, turn_done, GrowthTurn, MAX_GROWTH_SEGMENTS};

#[test]
fn growth_stops_at_the_segment_cap() {
    let turn = growth_turn(0, MAX_GROWTH_SEGMENTS, 7);
    assert_eq!(turn, GrowthTurn { stop: true, run_gravity: false, batch_left: 0 });
    assert!(!growth_turn(3, MAX_GROWTH_SEGMENTS - 1, 7).stop);
}

#[test]
fn gravity_runs_when_a_generation_is_used_up() {
    let turn = growth_turn(0, 10, 5);
    assert_eq!(turn, GrowthTurn { stop: false, run_gravity: true, batch_left: 5 });
    let mid = growth_turn(2, 10, 5);
    assert_eq!(mid, GrowthTurn { stop: false, run_gravity: false, batch_left: 2 });
}

#[test]
fn a_generation_counts_down_to_the_next_gravity_turn() {
    // a generation of three: the two turns after it start run no gravity,
    // the third does
    let mut batch = turn_done(growth_turn(0, 1, 3).batch_left);
    let mut gravity_turns = Vec::new();
    for k in 0..3 {
        let turn = growth_turn(batch, 1, 3);
        if turn.run_gravity {
            gravity_turns.push(k);
        }
        batch = turn_done(turn.batch_left);
    }
    assert_eq!(gravity_turns, vec![2]);
    assert_eq!(turn_done(0), 0);
}
