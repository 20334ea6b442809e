use pixy_tree::change_hash::property_hash;

#[test]
fn hash_is_weighted_sum() {
    assert_eq!(property_hash(&[(1, 29), (2, 31), (3, 37)]), 29 + 62 + 111);
}

#[test]
fn hash_of_nothing_is_zero() {
    assert_eq!(property_hash(&[]), 0);
}

#[test]
fn hash_wraps_around() {
    let h = property_hash(&[(u64::MAX, 3), (5, 1)]);
    assert_eq!(h, u64::MAX.wrapping_mul(3).wrapping_add(5));
}

#[test]
fn single_change_changes_hash() {
    let base = [(0x3f80_0000u64, 31u64), (7, 41), (1, 131)];
    let h0 = property_hash(&base);
    let mut edited = base;
    edited[1].0 = 8;
    assert_ne!(property_hash(&edited), h0);
    let mut big = base;
    big[0].0 = 0x3f80_0000u64 + (1u64 << 63);
    assert_ne!(property_hash(&big), h0);
}

#[test]
fn change_is_missed_only_when_it_vanishes_modulo_two_to_the_64() {
    // an even weight still sees a small change
    let base = [(5u64, 440u64)];
    assert_ne!(property_hash(&[(6, 440)]), property_hash(&base));
    // weight 2^63 cannot see a change by two
    let high = [(1u64, 1u64 << 63)];
    assert_eq!(property_hash(&[(3, 1u64 << 63)]), property_hash(&high));
}

#[test]
fn missing_texture_counts_as_zero() {
    assert_eq!(property_hash(&[(7, 31), (0, 617)]), property_hash(&[(7, 31)]));
}
