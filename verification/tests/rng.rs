use pixy_tree::rng::{stem_seed, SeededRng};

#[test]
fn zero_seed_is_replaced_by_one() {
    let rng = SeededRng::new(0);
    assert_eq!(rng.state(), 1);
}

#[test]
fn xorshift_sequence_from_seed_42() {
    let mut rng = SeededRng::new(42);
    assert_eq!(rng.state(), 42);
    assert_eq!(rng.next(), 45454805674);
    assert_eq!(rng.next(), 11532217803599905471);
    assert_eq!(rng.state(), 11532217803599905471);
}

#[test]
fn negative_seed_is_sign_extended() {
    let mut rng = SeededRng::new(-1);
    assert_eq!(rng.state(), u64::MAX);
    assert_eq!(rng.next(), 1065361344);
}

#[test]
fn same_seed_same_sequence() {
    let mut a = SeededRng::new(1234);
    let mut b = SeededRng::new(1234);
    for _ in 0..100 {
        let x = a.next();
        assert_eq!(x, b.next());
        assert_ne!(x, 0);
    }
}

#[test]
fn stem_seeds_step_by_1337() {
    assert_eq!(stem_seed(42, 0), 42);
    assert_eq!(stem_seed(42, 2), 42 + 2674);
    assert_eq!(stem_seed(i32::MAX, 1), i32::MIN + 1336);
}
