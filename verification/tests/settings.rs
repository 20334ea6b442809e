use pixy_tree::settings::{settings_hash, SettingsBits};

#[test]
fn all_zero_settings_hash_to_zero() {
    assert_eq!(settings_hash(&SettingsBits::default()), 0);
}

#[test]
fn each_setting_counts_with_its_weight() {
    let mut s = SettingsBits::default();
    s.trunk_height = 5.0f32.to_bits();
    s.radial_segments = 8;
    s.seed = 42;
    s.foliage_enabled = true;
    s.crown_shape = 2;
    let expected = (5.0f32.to_bits() as u64)
        .wrapping_mul(31)
        .wrapping_add(8 * 41)
        .wrapping_add(42 * 127)
        .wrapping_add(131)
        .wrapping_add(2 * 109);
    assert_eq!(settings_hash(&s), expected);
}

#[test]
fn negative_integers_are_sign_extended() {
    let mut s = SettingsBits::default();
    s.preview_iteration = -1;
    assert_eq!(settings_hash(&s), (-1i32 as u64).wrapping_mul(440));
    assert_ne!(settings_hash(&s), 0);
}

#[test]
fn editing_one_setting_changes_the_hash() {
    let base = SettingsBits::default();
    let mut edited = base;
    edited.preview_iteration = 1;
    assert_ne!(settings_hash(&edited), settings_hash(&base));
    let mut textured = base;
    textured.bark_texture = Some(0x1234_5678_9abc);
    assert_ne!(settings_hash(&textured), settings_hash(&base));
    let mut replaced = textured;
    replaced.bark_texture = Some(0x1234_5678_9abd);
    assert_ne!(settings_hash(&replaced), settings_hash(&textured));
}

#[test]
fn missing_texture_adds_nothing() {
    let mut s = SettingsBits::default();
    s.seed = 7;
    let h = settings_hash(&s);
    s.foliage_normal_map = None;
    assert_eq!(settings_hash(&s), h);
}
