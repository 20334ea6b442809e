use crate::change_hash::{lemma_single_change_detected, lemma_single_change_exact, property_hash, property_hash_spec};
use vstd::prelude::*;

verus! {

/// The settings of the tree generator that decide what it builds, read as
/// plain numbers: a float by its bit pattern, a choice by its number, a
/// texture by its instance id (`None` when no texture is set).
#[derive(Clone, Copy, Debug, PartialEq, Eq, Default)]
pub struct SettingsBits {
    pub preset: u32,
    pub trunk_height: u32,
    pub trunk_radius: u32,
    pub radial_segments: i32,
    pub height_segments: i32,
    pub branch_start: u32,
    pub branch_end: u32,
    pub branch_density: u32,
    pub branch_length: u32,
    pub branch_angle: u32,
    pub branch_angle_mode: u32,
    pub branch_angle_curve_end: u32,
    pub branch_angle_curve_power: u32,
    pub branch_angle_variation: u32,
    pub branch_radius_ratio: u32,
    pub branch_taper: u32,
    pub taper_mode: u32,
    pub branch_end_radius: u32,
    pub phyllotaxis_angle: u32,
    pub branch_randomness: u32,
    pub branch_randomness_mode: u32,
    pub branch_randomness_curve_end: u32,
    pub branch_randomness_curve_power: u32,
    pub branch_randomness_variation: u32,
    pub up_attraction: u32,
    pub branch_recursion: i32,
    pub sub_branch_count: i32,
    pub sub_branch_scale: u32,
    pub branch_flatness: u32,
    pub branch_angle_curve: u32,
    pub crown_angle_variation: u32,
    pub branch_resolution: u32,
    pub branch_length_variation: u32,
    pub branch_length_curve_end: u32,
    pub branch_length_curve_power: u32,
    pub branch_radius_curve_end: u32,
    pub branch_radius_curve_power: u32,
    pub sub_branch_position_bias: u32,
    pub apical_dominance: u32,
    pub crown_shape: u32,
    pub crown_influence: u32,
    pub crown_base_size: u32,
    pub crown_height: u32,
    pub seed: i32,
    pub foliage_enabled: bool,
    pub leaf_style: u32,
    pub foliage_placement: u32,
    pub leaf_orientation: u32,
    pub foliage_density: u32,
    pub cluster_size: i32,
    pub leaf_size: u32,
    pub leaf_size_variation: u32,
    pub foliage_radius_threshold: u32,
    pub foliage_height_falloff: u32,
    pub leaf_droop: u32,
    pub leaf_rotation_variation: u32,
    pub use_crown_foliage_density: bool,
    pub separate_foliage_mesh: bool,
    pub trunk_color_r: u32,
    pub trunk_color_g: u32,
    pub trunk_color_b: u32,
    pub foliage_color_r: u32,
    pub foliage_color_g: u32,
    pub foliage_color_b: u32,
    pub trunk_twist: u32,
    pub branch_twist: u32,
    pub gravity_strength: u32,
    pub split_enabled: bool,
    pub split_probability: u32,
    pub split_angle: u32,
    pub split_position: u32,
    pub split_radius_threshold: u32,
    pub split_radius_multiplier: u32,
    pub trunk_taper: u32,
    pub trunk_taper_curve: u32,
    pub trunk_flare: u32,
    pub trunk_randomness: u32,
    pub root_flare_count: i32,
    pub root_flare_spread: u32,
    pub root_flare_height: u32,
    pub break_chance: u32,
    pub stiffness: u32,
    pub trunk_termination: u32,
    pub leader_length: u32,
    pub leader_taper: u32,
    pub leader_has_branches: bool,
    pub branch_collar_enabled: bool,
    pub branch_collar_length: u32,
    pub preview_branch_limit: i32,
    pub preview_recursion_depth: i32,
    pub growth_enabled: bool,
    pub growth_preset: u32,
    pub growth_iterations: i32,
    pub preview_iteration: i32,
    pub grow_threshold: u32,
    pub cut_threshold: u32,
    pub split_threshold: u32,
    pub lateral_enabled: bool,
    pub lateral_start: u32,
    pub lateral_end: u32,
    pub lateral_density: u32,
    pub lateral_activation: u32,
    pub lateral_angle: u32,
    pub growth_gravitropism: u32,
    pub growth_randomness: u32,
    pub flowering_enabled: bool,
    pub flower_threshold: u32,
    pub dynamic_cut_threshold: bool,
    pub growth_extension_taper: u32,
    pub growth_split_taper: u32,
    pub secondary_growth: bool,
    pub competitive_vigor: bool,
    pub growth_trunk_resolution: u32,
    pub growth_trunk_up_attraction: u32,
    pub growth_split_angle: u32,
    pub growth_phyllotaxis_angle: u32,
    pub manifold_mesh_enabled: bool,
    pub pivot_painter_enabled: bool,
    pub stem_count: i32,
    pub stem_spread: u32,
    pub floor_avoidance: bool,
    pub floor_level: u32,
    pub smooth_enabled: bool,
    pub smooth_iterations: i32,
    pub smooth_factor: u32,
    pub adaptive_resolution: bool,
    pub resolution_scale: u32,
    pub min_radial_segments: i32,
    pub max_radial_segments: i32,
    pub length_resolution: u32,
    pub pipe_radius_enabled: bool,
    pub pipe_radius_exponent: u32,
    pub pipe_radius_min: u32,
    pub pipe_radius_constant_growth: u32,
    pub bark_uv_scale_x: u32,
    pub bark_uv_scale_y: u32,
    pub bark_uv_scale_z: u32,
    pub foliage_uv_scale_x: u32,
    pub foliage_uv_scale_y: u32,
    pub foliage_uv_scale_z: u32,
    pub trunk_roughness: u32,
    pub trunk_metallic: u32,
    pub foliage_roughness: u32,
    pub foliage_metallic: u32,
    pub bark_texture: Option<u64>,
    pub bark_normal_map: Option<u64>,
    pub bark_roughness_map: Option<u64>,
    pub foliage_texture: Option<u64>,
    pub foliage_normal_map: Option<u64>,
}

/// The number of settings.
pub const SETTING_COUNT: usize = 149;

/// The settings before this position are floats, integers, flags and
/// choices; from it on they are textures.
pub const TEXTURE_START: usize = 144;

/// Setting `j` read as an integer: a flag counts as 0 or 1, a missing texture as 0.
pub open spec fn setting_number(s: SettingsBits, j: int) -> int {
    if j < 74 {
        if j < 37 {
            if j < 18 {
                if j < 9 {
                    if j < 4 {
                        if j < 2 {
                            if j < 1 {
                                s.preset as int
                            } else {
                                s.trunk_height as int
                            }
                        } else {
                            if j < 3 {
                                s.trunk_radius as int
                            } else {
                                s.radial_segments as int
                            }
                        }
                    } else {
                        if j < 6 {
                            if j < 5 {
                                s.height_segments as int
                            } else {
                                s.branch_start as int
                            }
                        } else {
                            if j < 7 {
                                s.branch_end as int
                            } else {
                                if j < 8 {
                                    s.branch_density as int
                                } else {
                                    s.branch_length as int
                                }
                            }
                        }
                    }
                } else {
                    if j < 13 {
                        if j < 11 {
                            if j < 10 {
                                s.branch_angle as int
                            } else {
                                s.branch_angle_mode as int
                            }
                        } else {
                            if j < 12 {
                                s.branch_angle_curve_end as int
                            } else {
                                s.branch_angle_curve_power as int
                            }
                        }
                    } else {
                        if j < 15 {
                            if j < 14 {
                                s.branch_angle_variation as int
                            } else {
                                s.branch_radius_ratio as int
                            }
                        } else {
                            if j < 16 {
                                s.branch_taper as int
                            } else {
                                if j < 17 {
                                    s.taper_mode as int
                                } else {
                                    s.branch_end_radius as int
                                }
                            }
                        }
                    }
                }
            } else {
                if j < 27 {
                    if j < 22 {
                        if j < 20 {
                            if j < 19 {
                                s.phyllotaxis_angle as int
                            } else {
                                s.branch_randomness as int
                            }
                        } else {
                            if j < 21 {
                                s.branch_randomness_mode as int
                            } else {
                                s.branch_randomness_curve_end as int
                            }
                        }
                    } else {
                        if j < 24 {
                            if j < 23 {
                                s.branch_randomness_curve_power as int
                            } else {
                                s.branch_randomness_variation as int
                            }
                        } else {
                            if j < 25 {
                                s.up_attraction as int
                            } else {
                                if j < 26 {
                                    s.branch_recursion as int
                                } else {
                                    s.sub_branch_count as int
                                }
                            }
                        }
                    }
                } else {
                    if j < 32 {
                        if j < 29 {
                            if j < 28 {
                                s.sub_branch_scale as int
                            } else {
                                s.branch_flatness as int
                            }
                        } else {
                            if j < 30 {
                                s.branch_angle_curve as int
                            } else {
                                if j < 31 {
                                    s.crown_angle_variation as int
                                } else {
                                    s.branch_resolution as int
                                }
                            }
                        }
                    } else {
                        if j < 34 {
                            if j < 33 {
                                s.branch_length_variation as int
                            } else {
                                s.branch_length_curve_end as int
                            }
                        } else {
                            if j < 35 {
                                s.branch_length_curve_power as int
                            } else {
                                if j < 36 {
                                    s.branch_radius_curve_end as int
                                } else {
                                    s.branch_radius_curve_power as int
                                }
                            }
                        }
                    }
                }
            }
        } else {
            if j < 55 {
                if j < 46 {
                    if j < 41 {
                        if j < 39 {
                            if j < 38 {
                                s.sub_branch_position_bias as int
                            } else {
                                s.apical_dominance as int
                            }
                        } else {
                            if j < 40 {
                                s.crown_shape as int
                            } else {
                                s.crown_influence as int
                            }
                        }
                    } else {
                        if j < 43 {
                            if j < 42 {
                                s.crown_base_size as int
                            } else {
                                s.crown_height as int
                            }
                        } else {
                            if j < 44 {
                                s.seed as int
                            } else {
                                if j < 45 {
                                    if s.foliage_enabled { 1 } else { 0 }
                                } else {
                                    s.leaf_style as int
                                }
                            }
                        }
                    }
                } else {
                    if j < 50 {
                        if j < 48 {
                            if j < 47 {
                                s.foliage_placement as int
                            } else {
                                s.leaf_orientation as int
                            }
                        } else {
                            if j < 49 {
                                s.foliage_density as int
                            } else {
                                s.cluster_size as int
                            }
                        }
                    } else {
                        if j < 52 {
                            if j < 51 {
                                s.leaf_size as int
                            } else {
                                s.leaf_size_variation as int
                            }
                        } else {
                            if j < 53 {
                                s.foliage_radius_threshold as int
                            } else {
                                if j < 54 {
                                    s.foliage_height_falloff as int
                                } else {
                                    s.leaf_droop as int
                                }
                            }
                        }
                    }
                }
            } else {
                if j < 64 {
                    if j < 59 {
                        if j < 57 {
                            if j < 56 {
                                s.leaf_rotation_variation as int
                            } else {
                                if s.use_crown_foliage_density { 1 } else { 0 }
                            }
                        } else {
                            if j < 58 {
                                if s.separate_foliage_mesh { 1 } else { 0 }
                            } else {
                                s.trunk_color_r as int
                            }
                        }
                    } else {
                        if j < 61 {
                            if j < 60 {
                                s.trunk_color_g as int
                            } else {
                                s.trunk_color_b as int
                            }
                        } else {
                            if j < 62 {
                                s.foliage_color_r as int
                            } else {
                                if j < 63 {
                                    s.foliage_color_g as int
                                } else {
                                    s.foliage_color_b as int
                                }
                            }
                        }
                    }
                } else {
                    if j < 69 {
                        if j < 66 {
                            if j < 65 {
                                s.trunk_twist as int
                            } else {
                                s.branch_twist as int
                            }
                        } else {
                            if j < 67 {
                                s.gravity_strength as int
                            } else {
                                if j < 68 {
                                    if s.split_enabled { 1 } else { 0 }
                                } else {
                                    s.split_probability as int
                                }
                            }
                        }
                    } else {
                        if j < 71 {
                            if j < 70 {
                                s.split_angle as int
                            } else {
                                s.split_position as int
                            }
                        } else {
                            if j < 72 {
                                s.split_radius_threshold as int
                            } else {
                                if j < 73 {
                                    s.split_radius_multiplier as int
                                } else {
                                    s.trunk_taper as int
                                }
                            }
                        }
                    }
                }
            }
        }
    } else {
        if j < 111 {
            if j < 92 {
                if j < 83 {
                    if j < 78 {
                        if j < 76 {
                            if j < 75 {
                                s.trunk_taper_curve as int
                            } else {
                                s.trunk_flare as int
                            }
                        } else {
                            if j < 77 {
                                s.trunk_randomness as int
                            } else {
                                s.root_flare_count as int
                            }
                        }
                    } else {
                        if j < 80 {
                            if j < 79 {
                                s.root_flare_spread as int
                            } else {
                                s.root_flare_height as int
                            }
                        } else {
                            if j < 81 {
                                s.break_chance as int
                            } else {
                                if j < 82 {
                                    s.stiffness as int
                                } else {
                                    s.trunk_termination as int
                                }
                            }
                        }
                    }
                } else {
                    if j < 87 {
                        if j < 85 {
                            if j < 84 {
                                s.leader_length as int
                            } else {
                                s.leader_taper as int
                            }
                        } else {
                            if j < 86 {
                                if s.leader_has_branches { 1 } else { 0 }
                            } else {
                                if s.branch_collar_enabled { 1 } else { 0 }
                            }
                        }
                    } else {
                        if j < 89 {
                            if j < 88 {
                                s.branch_collar_length as int
                            } else {
                                s.preview_branch_limit as int
                            }
                        } else {
                            if j < 90 {
                                s.preview_recursion_depth as int
                            } else {
                                if j < 91 {
                                    if s.growth_enabled { 1 } else { 0 }
                                } else {
                                    s.growth_preset as int
                                }
                            }
                        }
                    }
                }
            } else {
                if j < 101 {
                    if j < 96 {
                        if j < 94 {
                            if j < 93 {
                                s.growth_iterations as int
                            } else {
                                s.preview_iteration as int
                            }
                        } else {
                            if j < 95 {
                                s.grow_threshold as int
                            } else {
                                s.cut_threshold as int
                            }
                        }
                    } else {
                        if j < 98 {
                            if j < 97 {
                                s.split_threshold as int
                            } else {
                                if s.lateral_enabled { 1 } else { 0 }
                            }
                        } else {
                            if j < 99 {
                                s.lateral_start as int
                            } else {
                                if j < 100 {
                                    s.lateral_end as int
                                } else {
                                    s.lateral_density as int
                                }
                            }
                        }
                    }
                } else {
                    if j < 106 {
                        if j < 103 {
                            if j < 102 {
                                s.lateral_activation as int
                            } else {
                                s.lateral_angle as int
                            }
                        } else {
                            if j < 104 {
                                s.growth_gravitropism as int
                            } else {
                                if j < 105 {
                                    s.growth_randomness as int
                                } else {
                                    if s.flowering_enabled { 1 } else { 0 }
                                }
                            }
                        }
                    } else {
                        if j < 108 {
                            if j < 107 {
                                s.flower_threshold as int
                            } else {
                                if s.dynamic_cut_threshold { 1 } else { 0 }
                            }
                        } else {
                            if j < 109 {
                                s.growth_extension_taper as int
                            } else {
                                if j < 110 {
                                    s.growth_split_taper as int
                                } else {
                                    if s.secondary_growth { 1 } else { 0 }
                                }
                            }
                        }
                    }
                }
            }
        } else {
            if j < 130 {
                if j < 120 {
                    if j < 115 {
                        if j < 113 {
                            if j < 112 {
                                if s.competitive_vigor { 1 } else { 0 }
                            } else {
                                s.growth_trunk_resolution as int
                            }
                        } else {
                            if j < 114 {
                                s.growth_trunk_up_attraction as int
                            } else {
                                s.growth_split_angle as int
                            }
                        }
                    } else {
                        if j < 117 {
                            if j < 116 {
                                s.growth_phyllotaxis_angle as int
                            } else {
                                if s.manifold_mesh_enabled { 1 } else { 0 }
                            }
                        } else {
                            if j < 118 {
                                if s.pivot_painter_enabled { 1 } else { 0 }
                            } else {
                                if j < 119 {
                                    s.stem_count as int
                                } else {
                                    s.stem_spread as int
                                }
                            }
                        }
                    }
                } else {
                    if j < 125 {
                        if j < 122 {
                            if j < 121 {
                                if s.floor_avoidance { 1 } else { 0 }
                            } else {
                                s.floor_level as int
                            }
                        } else {
                            if j < 123 {
                                if s.smooth_enabled { 1 } else { 0 }
                            } else {
                                if j < 124 {
                                    s.smooth_iterations as int
                                } else {
                                    s.smooth_factor as int
                                }
                            }
                        }
                    } else {
                        if j < 127 {
                            if j < 126 {
                                if s.adaptive_resolution { 1 } else { 0 }
                            } else {
                                s.resolution_scale as int
                            }
                        } else {
                            if j < 128 {
                                s.min_radial_segments as int
                            } else {
                                if j < 129 {
                                    s.max_radial_segments as int
                                } else {
                                    s.length_resolution as int
                                }
                            }
                        }
                    }
                }
            } else {
                if j < 139 {
                    if j < 134 {
                        if j < 132 {
                            if j < 131 {
                                if s.pipe_radius_enabled { 1 } else { 0 }
                            } else {
                                s.pipe_radius_exponent as int
                            }
                        } else {
                            if j < 133 {
                                s.pipe_radius_min as int
                            } else {
                                s.pipe_radius_constant_growth as int
                            }
                        }
                    } else {
                        if j < 136 {
                            if j < 135 {
                                s.bark_uv_scale_x as int
                            } else {
                                s.bark_uv_scale_y as int
                            }
                        } else {
                            if j < 137 {
                                s.bark_uv_scale_z as int
                            } else {
                                if j < 138 {
                                    s.foliage_uv_scale_x as int
                                } else {
                                    s.foliage_uv_scale_y as int
                                }
                            }
                        }
                    }
                } else {
                    if j < 144 {
                        if j < 141 {
                            if j < 140 {
                                s.foliage_uv_scale_z as int
                            } else {
                                s.trunk_roughness as int
                            }
                        } else {
                            if j < 142 {
                                s.trunk_metallic as int
                            } else {
                                if j < 143 {
                                    s.foliage_roughness as int
                                } else {
                                    s.foliage_metallic as int
                                }
                            }
                        }
                    } else {
                        if j < 146 {
                            if j < 145 {
                                match s.bark_texture { Some(id) => id as int, None => 0 }
                            } else {
                                match s.bark_normal_map { Some(id) => id as int, None => 0 }
                            }
                        } else {
                            if j < 147 {
                                match s.bark_roughness_map { Some(id) => id as int, None => 0 }
                            } else {
                                if j < 148 {
                                    match s.foliage_texture { Some(id) => id as int, None => 0 }
                                } else {
                                    match s.foliage_normal_map { Some(id) => id as int, None => 0 }
                                }
                            }
                        }
                    }
                }
            }
        }
    }
}

/// The weight that setting `j` is multiplied by in the hash.
pub open spec fn setting_weight(j: int) -> u64 {
    if j < 74 {
        if j < 37 {
            if j < 18 {
                if j < 9 {
                    if j < 4 {
                        if j < 2 {
                            if j < 1 {
                                29
                            } else {
                                31
                            }
                        } else {
                            if j < 3 {
                                37
                            } else {
                                41
                            }
                        }
                    } else {
                        if j < 6 {
                            if j < 5 {
                                43
                            } else {
                                47
                            }
                        } else {
                            if j < 7 {
                                53
                            } else {
                                if j < 8 {
                                    59
                                } else {
                                    61
                                }
                            }
                        }
                    }
                } else {
                    if j < 13 {
                        if j < 11 {
                            if j < 10 {
                                67
                            } else {
                                863
                            }
                        } else {
                            if j < 12 {
                                877
                            } else {
                                881
                            }
                        }
                    } else {
                        if j < 15 {
                            if j < 14 {
                                883
                            } else {
                                71
                            }
                        } else {
                            if j < 16 {
                                73
                            } else {
                                if j < 17 {
                                    929
                                } else {
                                    937
                                }
                            }
                        }
                    }
                }
            } else {
                if j < 27 {
                    if j < 22 {
                        if j < 20 {
                            if j < 19 {
                                79
                            } else {
                                83
                            }
                        } else {
                            if j < 21 {
                                887
                            } else {
                                907
                            }
                        }
                    } else {
                        if j < 24 {
                            if j < 23 {
                                911
                            } else {
                                919
                            }
                        } else {
                            if j < 25 {
                                89
                            } else {
                                if j < 26 {
                                    97
                                } else {
                                    101
                                }
                            }
                        }
                    }
                } else {
                    if j < 32 {
                        if j < 29 {
                            if j < 28 {
                                103
                            } else {
                                313
                            }
                        } else {
                            if j < 30 {
                                317
                            } else {
                                if j < 31 {
                                    373
                                } else {
                                    853
                                }
                            }
                        }
                    } else {
                        if j < 34 {
                            if j < 33 {
                                337
                            } else {
                                743
                            }
                        } else {
                            if j < 35 {
                                751
                            } else {
                                if j < 36 {
                                    757
                                } else {
                                    761
                                }
                            }
                        }
                    }
                }
            }
        } else {
            if j < 55 {
                if j < 46 {
                    if j < 41 {
                        if j < 39 {
                            if j < 38 {
                                347
                            } else {
                                349
                            }
                        } else {
                            if j < 40 {
                                109
                            } else {
                                113
                            }
                        }
                    } else {
                        if j < 43 {
                            if j < 42 {
                                829
                            } else {
                                839
                            }
                        } else {
                            if j < 44 {
                                127
                            } else {
                                if j < 45 {
                                    131
                                } else {
                                    137
                                }
                            }
                        }
                    }
                } else {
                    if j < 50 {
                        if j < 48 {
                            if j < 47 {
                                139
                            } else {
                                149
                            }
                        } else {
                            if j < 49 {
                                151
                            } else {
                                157
                            }
                        }
                    } else {
                        if j < 52 {
                            if j < 51 {
                                163
                            } else {
                                167
                            }
                        } else {
                            if j < 53 {
                                173
                            } else {
                                if j < 54 {
                                    179
                                } else {
                                    181
                                }
                            }
                        }
                    }
                }
            } else {
                if j < 64 {
                    if j < 59 {
                        if j < 57 {
                            if j < 56 {
                                191
                            } else {
                                193
                            }
                        } else {
                            if j < 58 {
                                197
                            } else {
                                199
                            }
                        }
                    } else {
                        if j < 61 {
                            if j < 60 {
                                211
                            } else {
                                223
                            }
                        } else {
                            if j < 62 {
                                227
                            } else {
                                if j < 63 {
                                    229
                                } else {
                                    233
                                }
                            }
                        }
                    }
                } else {
                    if j < 69 {
                        if j < 66 {
                            if j < 65 {
                                239
                            } else {
                                241
                            }
                        } else {
                            if j < 67 {
                                251
                            } else {
                                if j < 68 {
                                    257
                                } else {
                                    263
                                }
                            }
                        }
                    } else {
                        if j < 71 {
                            if j < 70 {
                                269
                            } else {
                                271
                            }
                        } else {
                            if j < 72 {
                                311
                            } else {
                                if j < 73 {
                                    857
                                } else {
                                    277
                                }
                            }
                        }
                    }
                }
            }
        }
    } else {
        if j < 111 {
            if j < 92 {
                if j < 83 {
                    if j < 78 {
                        if j < 76 {
                            if j < 75 {
                                281
                            } else {
                                283
                            }
                        } else {
                            if j < 77 {
                                331
                            } else {
                                353
                            }
                        }
                    } else {
                        if j < 80 {
                            if j < 79 {
                                359
                            } else {
                                367
                            }
                        } else {
                            if j < 81 {
                                293
                            } else {
                                if j < 82 {
                                    307
                                } else {
                                    389
                                }
                            }
                        }
                    }
                } else {
                    if j < 87 {
                        if j < 85 {
                            if j < 84 {
                                397
                            } else {
                                401
                            }
                        } else {
                            if j < 86 {
                                409
                            } else {
                                419
                            }
                        }
                    } else {
                        if j < 89 {
                            if j < 88 {
                                421
                            } else {
                                379
                            }
                        } else {
                            if j < 90 {
                                383
                            } else {
                                if j < 91 {
                                    431
                                } else {
                                    433
                                }
                            }
                        }
                    }
                }
            } else {
                if j < 101 {
                    if j < 96 {
                        if j < 94 {
                            if j < 93 {
                                439
                            } else {
                                440
                            }
                        } else {
                            if j < 95 {
                                443
                            } else {
                                449
                            }
                        }
                    } else {
                        if j < 98 {
                            if j < 97 {
                                457
                            } else {
                                461
                            }
                        } else {
                            if j < 99 {
                                463
                            } else {
                                if j < 100 {
                                    467
                                } else {
                                    479
                                }
                            }
                        }
                    }
                } else {
                    if j < 106 {
                        if j < 103 {
                            if j < 102 {
                                487
                            } else {
                                491
                            }
                        } else {
                            if j < 104 {
                                499
                            } else {
                                if j < 105 {
                                    503
                                } else {
                                    509
                                }
                            }
                        }
                    } else {
                        if j < 108 {
                            if j < 107 {
                                521
                            } else {
                                709
                            }
                        } else {
                            if j < 109 {
                                719
                            } else {
                                if j < 110 {
                                    727
                                } else {
                                    733
                                }
                            }
                        }
                    }
                }
            }
        } else {
            if j < 130 {
                if j < 120 {
                    if j < 115 {
                        if j < 113 {
                            if j < 112 {
                                739
                            } else {
                                811
                            }
                        } else {
                            if j < 114 {
                                821
                            } else {
                                823
                            }
                        }
                    } else {
                        if j < 117 {
                            if j < 116 {
                                827
                            } else {
                                773
                            }
                        } else {
                            if j < 118 {
                                787
                            } else {
                                if j < 119 {
                                    797
                                } else {
                                    809
                                }
                            }
                        }
                    }
                } else {
                    if j < 125 {
                        if j < 122 {
                            if j < 121 {
                                523
                            } else {
                                541
                            }
                        } else {
                            if j < 123 {
                                547
                            } else {
                                if j < 124 {
                                    557
                                } else {
                                    563
                                }
                            }
                        }
                    } else {
                        if j < 127 {
                            if j < 126 {
                                569
                            } else {
                                571
                            }
                        } else {
                            if j < 128 {
                                577
                            } else {
                                if j < 129 {
                                    587
                                } else {
                                    701
                                }
                            }
                        }
                    }
                }
            } else {
                if j < 139 {
                    if j < 134 {
                        if j < 132 {
                            if j < 131 {
                                593
                            } else {
                                599
                            }
                        } else {
                            if j < 133 {
                                601
                            } else {
                                769
                            }
                        }
                    } else {
                        if j < 136 {
                            if j < 135 {
                                641
                            } else {
                                643
                            }
                        } else {
                            if j < 137 {
                                647
                            } else {
                                if j < 138 {
                                    653
                                } else {
                                    659
                                }
                            }
                        }
                    }
                } else {
                    if j < 144 {
                        if j < 141 {
                            if j < 140 {
                                661
                            } else {
                                673
                            }
                        } else {
                            if j < 142 {
                                677
                            } else {
                                if j < 143 {
                                    683
                                } else {
                                    691
                                }
                            }
                        }
                    } else {
                        if j < 146 {
                            if j < 145 {
                                607
                            } else {
                                613
                            }
                        } else {
                            if j < 147 {
                                617
                            } else {
                                if j < 148 {
                                    619
                                } else {
                                    631
                                }
                            }
                        }
                    }
                }
            }
        }
    }
}

/// A number as a 64-bit word: negative numbers wrap around, as a
/// sign-extending cast does.
pub open spec fn word(n: int) -> u64 {
    if n >= 0 {
        n as u64
    } else {
        (n + 0x1_0000_0000_0000_0000) as u64
    }
}

/// The (value, weight) terms of the settings hash, one per setting.
pub open spec fn settings_terms(s: SettingsBits) -> Seq<(u64, u64)> {
    Seq::new(SETTING_COUNT as nat, |j: int| (word(setting_number(s, j)), setting_weight(j)))
}

/// A sign-extending cast of an `i32` is the wrapped word of its value.
proof fn lemma_word_of_i32(x: i32)
    ensures
        (x as u64) == word(x as int),
{
    assert(x < 0 ==> (x as u64) as int == x as int + 0x1_0000_0000_0000_0000) by (bit_vector);
    assert(x >= 0 ==> (x as u64) as int == x as int) by (bit_vector);
}

/// The (value, weight) term of setting `j`.
#[verifier::rlimit(50)]
fn setting_term(s: &SettingsBits, j: usize) -> (t: (u64, u64))
    requires
        j < SETTING_COUNT,
    ensures
        t == (word(setting_number(*s, j as int)), setting_weight(j as int)),
{
    match j {
        0 => (s.preset as u64, 29),
        1 => (s.trunk_height as u64, 31),
        2 => (s.trunk_radius as u64, 37),
        3 => {
            proof {
                lemma_word_of_i32(s.radial_segments);
            }
            (s.radial_segments as u64, 41)
        },
        4 => {
            proof {
                lemma_word_of_i32(s.height_segments);
            }
            (s.height_segments as u64, 43)
        },
        5 => (s.branch_start as u64, 47),
        6 => (s.branch_end as u64, 53),
        7 => (s.branch_density as u64, 59),
        8 => (s.branch_length as u64, 61),
        9 => (s.branch_angle as u64, 67),
        10 => (s.branch_angle_mode as u64, 863),
        11 => (s.branch_angle_curve_end as u64, 877),
        12 => (s.branch_angle_curve_power as u64, 881),
        13 => (s.branch_angle_variation as u64, 883),
        14 => (s.branch_radius_ratio as u64, 71),
        15 => (s.branch_taper as u64, 73),
        16 => (s.taper_mode as u64, 929),
        17 => (s.branch_end_radius as u64, 937),
        18 => (s.phyllotaxis_angle as u64, 79),
        19 => (s.branch_randomness as u64, 83),
        20 => (s.branch_randomness_mode as u64, 887),
        21 => (s.branch_randomness_curve_end as u64, 907),
        22 => (s.branch_randomness_curve_power as u64, 911),
        23 => (s.branch_randomness_variation as u64, 919),
        24 => (s.up_attraction as u64, 89),
        25 => {
            proof {
                lemma_word_of_i32(s.branch_recursion);
            }
            (s.branch_recursion as u64, 97)
        },
        26 => {
            proof {
                lemma_word_of_i32(s.sub_branch_count);
            }
            (s.sub_branch_count as u64, 101)
        },
        27 => (s.sub_branch_scale as u64, 103),
        28 => (s.branch_flatness as u64, 313),
        29 => (s.branch_angle_curve as u64, 317),
        30 => (s.crown_angle_variation as u64, 373),
        31 => (s.branch_resolution as u64, 853),
        32 => (s.branch_length_variation as u64, 337),
        33 => (s.branch_length_curve_end as u64, 743),
        34 => (s.branch_length_curve_power as u64, 751),
        35 => (s.branch_radius_curve_end as u64, 757),
        36 => (s.branch_radius_curve_power as u64, 761),
        37 => (s.sub_branch_position_bias as u64, 347),
        38 => (s.apical_dominance as u64, 349),
        39 => (s.crown_shape as u64, 109),
        40 => (s.crown_influence as u64, 113),
        41 => (s.crown_base_size as u64, 829),
        42 => (s.crown_height as u64, 839),
        43 => {
            proof {
                lemma_word_of_i32(s.seed);
            }
            (s.seed as u64, 127)
        },
        44 => (if s.foliage_enabled { 1 } else { 0 }, 131),
        45 => (s.leaf_style as u64, 137),
        46 => (s.foliage_placement as u64, 139),
        47 => (s.leaf_orientation as u64, 149),
        48 => (s.foliage_density as u64, 151),
        49 => {
            proof {
                lemma_word_of_i32(s.cluster_size);
            }
            (s.cluster_size as u64, 157)
        },
        50 => (s.leaf_size as u64, 163),
        51 => (s.leaf_size_variation as u64, 167),
        52 => (s.foliage_radius_threshold as u64, 173),
        53 => (s.foliage_height_falloff as u64, 179),
        54 => (s.leaf_droop as u64, 181),
        55 => (s.leaf_rotation_variation as u64, 191),
        56 => (if s.use_crown_foliage_density { 1 } else { 0 }, 193),
        57 => (if s.separate_foliage_mesh { 1 } else { 0 }, 197),
        58 => (s.trunk_color_r as u64, 199),
        59 => (s.trunk_color_g as u64, 211),
        60 => (s.trunk_color_b as u64, 223),
        61 => (s.foliage_color_r as u64, 227),
        62 => (s.foliage_color_g as u64, 229),
        63 => (s.foliage_color_b as u64, 233),
        64 => (s.trunk_twist as u64, 239),
        65 => (s.branch_twist as u64, 241),
        66 => (s.gravity_strength as u64, 251),
        67 => (if s.split_enabled { 1 } else { 0 }, 257),
        68 => (s.split_probability as u64, 263),
        69 => (s.split_angle as u64, 269),
        70 => (s.split_position as u64, 271),
        71 => (s.split_radius_threshold as u64, 311),
        72 => (s.split_radius_multiplier as u64, 857),
        73 => (s.trunk_taper as u64, 277),
        74 => (s.trunk_taper_curve as u64, 281),
        75 => (s.trunk_flare as u64, 283),
        76 => (s.trunk_randomness as u64, 331),
        77 => {
            proof {
                lemma_word_of_i32(s.root_flare_count);
            }
            (s.root_flare_count as u64, 353)
        },
        78 => (s.root_flare_spread as u64, 359),
        79 => (s.root_flare_height as u64, 367),
        80 => (s.break_chance as u64, 293),
        81 => (s.stiffness as u64, 307),
        82 => (s.trunk_termination as u64, 389),
        83 => (s.leader_length as u64, 397),
        84 => (s.leader_taper as u64, 401),
        85 => (if s.leader_has_branches { 1 } else { 0 }, 409),
        86 => (if s.branch_collar_enabled { 1 } else { 0 }, 419),
        87 => (s.branch_collar_length as u64, 421),
        88 => {
            proof {
                lemma_word_of_i32(s.preview_branch_limit);
            }
            (s.preview_branch_limit as u64, 379)
        },
        89 => {
            proof {
                lemma_word_of_i32(s.preview_recursion_depth);
            }
            (s.preview_recursion_depth as u64, 383)
        },
        90 => (if s.growth_enabled { 1 } else { 0 }, 431),
        91 => (s.growth_preset as u64, 433),
        92 => {
            proof {
                lemma_word_of_i32(s.growth_iterations);
            }
            (s.growth_iterations as u64, 439)
        },
        93 => {
            proof {
                lemma_word_of_i32(s.preview_iteration);
            }
            (s.preview_iteration as u64, 440)
        },
        94 => (s.grow_threshold as u64, 443),
        95 => (s.cut_threshold as u64, 449),
        96 => (s.split_threshold as u64, 457),
        97 => (if s.lateral_enabled { 1 } else { 0 }, 461),
        98 => (s.lateral_start as u64, 463),
        99 => (s.lateral_end as u64, 467),
        100 => (s.lateral_density as u64, 479),
        101 => (s.lateral_activation as u64, 487),
        102 => (s.lateral_angle as u64, 491),
        103 => (s.growth_gravitropism as u64, 499),
        104 => (s.growth_randomness as u64, 503),
        105 => (if s.flowering_enabled { 1 } else { 0 }, 509),
        106 => (s.flower_threshold as u64, 521),
        107 => (if s.dynamic_cut_threshold { 1 } else { 0 }, 709),
        108 => (s.growth_extension_taper as u64, 719),
        109 => (s.growth_split_taper as u64, 727),
        110 => (if s.secondary_growth { 1 } else { 0 }, 733),
        111 => (if s.competitive_vigor { 1 } else { 0 }, 739),
        112 => (s.growth_trunk_resolution as u64, 811),
        113 => (s.growth_trunk_up_attraction as u64, 821),
        114 => (s.growth_split_angle as u64, 823),
        115 => (s.growth_phyllotaxis_angle as u64, 827),
        116 => (if s.manifold_mesh_enabled { 1 } else { 0 }, 773),
        117 => (if s.pivot_painter_enabled { 1 } else { 0 }, 787),
        118 => {
            proof {
                lemma_word_of_i32(s.stem_count);
            }
            (s.stem_count as u64, 797)
        },
        119 => (s.stem_spread as u64, 809),
        120 => (if s.floor_avoidance { 1 } else { 0 }, 523),
        121 => (s.floor_level as u64, 541),
        122 => (if s.smooth_enabled { 1 } else { 0 }, 547),
        123 => {
            proof {
                lemma_word_of_i32(s.smooth_iterations);
            }
            (s.smooth_iterations as u64, 557)
        },
        124 => (s.smooth_factor as u64, 563),
        125 => (if s.adaptive_resolution { 1 } else { 0 }, 569),
        126 => (s.resolution_scale as u64, 571),
        127 => {
            proof {
                lemma_word_of_i32(s.min_radial_segments);
            }
            (s.min_radial_segments as u64, 577)
        },
        128 => {
            proof {
                lemma_word_of_i32(s.max_radial_segments);
            }
            (s.max_radial_segments as u64, 587)
        },
        129 => (s.length_resolution as u64, 701),
        130 => (if s.pipe_radius_enabled { 1 } else { 0 }, 593),
        131 => (s.pipe_radius_exponent as u64, 599),
        132 => (s.pipe_radius_min as u64, 601),
        133 => (s.pipe_radius_constant_growth as u64, 769),
        134 => (s.bark_uv_scale_x as u64, 641),
        135 => (s.bark_uv_scale_y as u64, 643),
        136 => (s.bark_uv_scale_z as u64, 647),
        137 => (s.foliage_uv_scale_x as u64, 653),
        138 => (s.foliage_uv_scale_y as u64, 659),
        139 => (s.foliage_uv_scale_z as u64, 661),
        140 => (s.trunk_roughness as u64, 673),
        141 => (s.trunk_metallic as u64, 677),
        142 => (s.foliage_roughness as u64, 683),
        143 => (s.foliage_metallic as u64, 691),
        144 => (match s.bark_texture { Some(id) => id, None => 0 }, 607),
        145 => (match s.bark_normal_map { Some(id) => id, None => 0 }, 613),
        146 => (match s.bark_roughness_map { Some(id) => id, None => 0 }, 617),
        147 => (match s.foliage_texture { Some(id) => id, None => 0 }, 619),
        148 => (match s.foliage_normal_map { Some(id) => id, None => 0 }, 631),
        _ => (0, 0),
    }
}

/// The change-detection hash of the generator's settings: every setting
/// times its weight, summed with wrap-around. A missing texture adds
/// nothing.
pub fn settings_hash(s: &SettingsBits) -> (h: u64)
    ensures
        h == property_hash_spec(settings_terms(*s)),
{
    let mut terms: Vec<(u64, u64)> = Vec::new();
    let mut j: usize = 0;
    while j < SETTING_COUNT
        invariant
            j <= SETTING_COUNT,
            terms@ == settings_terms(*s).take(j as int),
        decreases SETTING_COUNT - j,
    {
        let t = setting_term(s, j);
        terms.push(t);
        proof {
            assert(settings_terms(*s).take(j + 1) =~= settings_terms(*s).take(j as int).push(t));
        }
        j = j + 1;
    }
    proof {
        assert(settings_terms(*s).take(SETTING_COUNT as int) =~= settings_terms(*s));
    }
    property_hash(terms.as_slice())
}

/// Bounds of each setting and its weight: every setting before the textures
/// lies within 32 bits (signed or unsigned) and has a weight below 1024;
/// every texture has an odd weight.
proof fn lemma_setting_ranges(s: SettingsBits, k: int)
    requires
        0 <= k < SETTING_COUNT,
    ensures
        k < TEXTURE_START ==> -0x8000_0000 <= setting_number(s, k) < 0x1_0000_0000 && 0
            < setting_weight(k) < 1024,
        k >= TEXTURE_START ==> 0 <= setting_number(s, k) < 0x1_0000_0000_0000_0000
            && setting_weight(k) % 2 == 1,
{
    if k == 0 {
    } else if k == 1 {
    } else if k == 2 {
    } else if k == 3 {
    } else if k == 4 {
    } else if k == 5 {
    } else if k == 6 {
    } else if k == 7 {
    } else if k == 8 {
    } else if k == 9 {
    } else if k == 10 {
    } else if k == 11 {
    } else if k == 12 {
    } else if k == 13 {
    } else if k == 14 {
    } else if k == 15 {
    } else if k == 16 {
    } else if k == 17 {
    } else if k == 18 {
    } else if k == 19 {
    } else if k == 20 {
    } else if k == 21 {
    } else if k == 22 {
    } else if k == 23 {
    } else if k == 24 {
    } else if k == 25 {
    } else if k == 26 {
    } else if k == 27 {
    } else if k == 28 {
    } else if k == 29 {
    } else if k == 30 {
    } else if k == 31 {
    } else if k == 32 {
    } else if k == 33 {
    } else if k == 34 {
    } else if k == 35 {
    } else if k == 36 {
    } else if k == 37 {
    } else if k == 38 {
    } else if k == 39 {
    } else if k == 40 {
    } else if k == 41 {
    } else if k == 42 {
    } else if k == 43 {
    } else if k == 44 {
    } else if k == 45 {
    } else if k == 46 {
    } else if k == 47 {
    } else if k == 48 {
    } else if k == 49 {
    } else if k == 50 {
    } else if k == 51 {
    } else if k == 52 {
    } else if k == 53 {
    } else if k == 54 {
    } else if k == 55 {
    } else if k == 56 {
    } else if k == 57 {
    } else if k == 58 {
    } else if k == 59 {
    } else if k == 60 {
    } else if k == 61 {
    } else if k == 62 {
    } else if k == 63 {
    } else if k == 64 {
    } else if k == 65 {
    } else if k == 66 {
    } else if k == 67 {
    } else if k == 68 {
    } else if k == 69 {
    } else if k == 70 {
    } else if k == 71 {
    } else if k == 72 {
    } else if k == 73 {
    } else if k == 74 {
    } else if k == 75 {
    } else if k == 76 {
    } else if k == 77 {
    } else if k == 78 {
    } else if k == 79 {
    } else if k == 80 {
    } else if k == 81 {
    } else if k == 82 {
    } else if k == 83 {
    } else if k == 84 {
    } else if k == 85 {
    } else if k == 86 {
    } else if k == 87 {
    } else if k == 88 {
    } else if k == 89 {
    } else if k == 90 {
    } else if k == 91 {
    } else if k == 92 {
    } else if k == 93 {
    } else if k == 94 {
    } else if k == 95 {
    } else if k == 96 {
    } else if k == 97 {
    } else if k == 98 {
    } else if k == 99 {
    } else if k == 100 {
    } else if k == 101 {
    } else if k == 102 {
    } else if k == 103 {
    } else if k == 104 {
    } else if k == 105 {
    } else if k == 106 {
    } else if k == 107 {
    } else if k == 108 {
    } else if k == 109 {
    } else if k == 110 {
    } else if k == 111 {
    } else if k == 112 {
    } else if k == 113 {
    } else if k == 114 {
    } else if k == 115 {
    } else if k == 116 {
    } else if k == 117 {
    } else if k == 118 {
    } else if k == 119 {
    } else if k == 120 {
    } else if k == 121 {
    } else if k == 122 {
    } else if k == 123 {
    } else if k == 124 {
    } else if k == 125 {
    } else if k == 126 {
    } else if k == 127 {
    } else if k == 128 {
    } else if k == 129 {
    } else if k == 130 {
    } else if k == 131 {
    } else if k == 132 {
    } else if k == 133 {
    } else if k == 134 {
    } else if k == 135 {
    } else if k == 136 {
    } else if k == 137 {
    } else if k == 138 {
    } else if k == 139 {
    } else if k == 140 {
    } else if k == 141 {
    } else if k == 142 {
    } else if k == 143 {
    } else if k == 144 {
    } else if k == 145 {
    } else if k == 146 {
    } else if k == 147 {
    } else if k == 148 {
    }
}

/// A change between two numbers that fit in 32 bits, times a weight below
/// 1024, never vanishes modulo 2^64, even after both numbers are wrapped
/// into words.
proof fn lemma_small_change(na: int, nb: int, w: int)
    requires
        -0x8000_0000 <= na < 0x1_0000_0000,
        -0x8000_0000 <= nb < 0x1_0000_0000,
        na != nb,
        0 < w < 1024,
    ensures
        ((word(nb) - word(na)) * w) % 0x1_0000_0000_0000_0000 != 0,
{
    let m = 0x1_0000_0000_0000_0000int;
    let d = nb - na;
    let c: int = (if nb >= 0 { 0int } else { 1int }) - (if na >= 0 { 0int } else { 1int });
    assert(word(nb) - word(na) == d + c * m);
    assert((d + c * m) * w == m * (c * w) + d * w) by (nonlinear_arith);
    vstd::arithmetic::div_mod::lemma_mod_multiples_vanish(c * w, d * w, m);
    assert(-0x1_0000_0000_0000_0000 < d * w < 0x1_0000_0000_0000_0000 && d * w != 0) by (nonlinear_arith)
        requires
            -0x1_8000_0000 < d < 0x1_8000_0000,
            d != 0,
            0 < w < 1024,
    ;
    if d * w > 0 {
        vstd::arithmetic::div_mod::lemma_small_mod((d * w) as nat, m as nat);
    } else {
        vstd::arithmetic::div_mod::lemma_mod_multiples_vanish(1, d * w, m);
        vstd::arithmetic::div_mod::lemma_small_mod((m + d * w) as nat, m as nat);
    }
}

/// Settings `a` and `b` differ in exactly one setting, read as numbers.
pub open spec fn differ_in_one(a: SettingsBits, b: SettingsBits) -> bool {
    exists|k: int|
        0 <= k < SETTING_COUNT && #[trigger] setting_number(a, k) != setting_number(b, k) && forall|j: int|
            0 <= j < SETTING_COUNT && j != k ==> setting_number(a, j) == setting_number(b, j)
}

/// Editing any single setting changes the settings hash, so the editor
/// always notices it: a float's bits, an integer, a flag, a choice, or a
/// texture set, cleared or replaced by one with a non-zero id. Settings
/// that are equal give equal hashes, since the hash is a function of them.
pub proof fn lemma_settings_change_detected(a: SettingsBits, b: SettingsBits)
    requires
        differ_in_one(a, b),
    ensures
        property_hash_spec(settings_terms(a)) != property_hash_spec(settings_terms(b)),
{
    let k = choose|k: int|
        0 <= k < SETTING_COUNT && #[trigger] setting_number(a, k) != setting_number(b, k) && forall|j: int|
            0 <= j < SETTING_COUNT && j != k ==> setting_number(a, j) == setting_number(b, j);
    let ta = settings_terms(a);
    let tb = settings_terms(b);
    let nb = setting_number(b, k);
    let na = setting_number(a, k);
    assert(tb =~= ta.update(k, (word(nb), ta[k].1)));
    lemma_setting_ranges(a, k);
    lemma_setting_ranges(b, k);
    if k < TEXTURE_START {
        lemma_single_change_exact(ta, k, word(nb));
        lemma_small_change(na, nb, setting_weight(k) as int);
    } else {
        assert(word(nb) != ta[k].0);
        lemma_single_change_detected(ta, k, word(nb));
    }
}


/// Changing only `preset` (its choice) changes the settings hash.
pub proof fn lemma_edit_preset(a: SettingsBits, v: u32)
    requires
        v != a.preset,
    ensures
        property_hash_spec(settings_terms(a)) != property_hash_spec(settings_terms(SettingsBits { preset: v, ..a })),
{
    let b = SettingsBits { preset: v, ..a };
    assert(setting_number(a, 0) != setting_number(b, 0));
    assert forall|j: int| 0 <= j < SETTING_COUNT && j != 0 implies setting_number(a, j) == setting_number(b, j) by {}
    assert(differ_in_one(a, b));
    lemma_settings_change_detected(a, b);
}

/// Changing only `trunk_height` (its bit pattern) changes the settings hash.
pub proof fn lemma_edit_trunk_height(a: SettingsBits, v: u32)
    requires
        v != a.trunk_height,
    ensures
        property_hash_spec(settings_terms(a)) != property_hash_spec(settings_terms(SettingsBits { trunk_height: v, ..a })),
{
    let b = SettingsBits { trunk_height: v, ..a };
    assert(setting_number(a, 1) != setting_number(b, 1));
    assert forall|j: int| 0 <= j < SETTING_COUNT && j != 1 implies setting_number(a, j) == setting_number(b, j) by {}
    assert(differ_in_one(a, b));
    lemma_settings_change_detected(a, b);
}

/// Changing only `trunk_radius` (its bit pattern) changes the settings hash.
pub proof fn lemma_edit_trunk_radius(a: SettingsBits, v: u32)
    requires
        v != a.trunk_radius,
    ensures
        property_hash_spec(settings_terms(a)) != property_hash_spec(settings_terms(SettingsBits { trunk_radius: v, ..a })),
{
    let b = SettingsBits { trunk_radius: v, ..a };
    assert(setting_number(a, 2) != setting_number(b, 2));
    assert forall|j: int| 0 <= j < SETTING_COUNT && j != 2 implies setting_number(a, j) == setting_number(b, j) by {}
    assert(differ_in_one(a, b));
    lemma_settings_change_detected(a, b);
}

/// Changing only `radial_segments` (its value) changes the settings hash.
pub proof fn lemma_edit_radial_segments(a: SettingsBits, v: i32)
    requires
        v != a.radial_segments,
    ensures
        property_hash_spec(settings_terms(a)) != property_hash_spec(settings_terms(SettingsBits { radial_segments: v, ..a })),
{
    let b = SettingsBits { radial_segments: v, ..a };
    assert(setting_number(a, 3) != setting_number(b, 3));
    assert forall|j: int| 0 <= j < SETTING_COUNT && j != 3 implies setting_number(a, j) == setting_number(b, j) by {}
    assert(differ_in_one(a, b));
    lemma_settings_change_detected(a, b);
}

/// Changing only `height_segments` (its value) changes the settings hash.
pub proof fn lemma_edit_height_segments(a: SettingsBits, v: i32)
    requires
        v != a.height_segments,
    ensures
        property_hash_spec(settings_terms(a)) != property_hash_spec(settings_terms(SettingsBits { height_segments: v, ..a })),
{
    let b = SettingsBits { height_segments: v, ..a };
    assert(setting_number(a, 4) != setting_number(b, 4));
    assert forall|j: int| 0 <= j < SETTING_COUNT && j != 4 implies setting_number(a, j) == setting_number(b, j) by {}
    assert(differ_in_one(a, b));
    lemma_settings_change_detected(a, b);
}

/// Changing only `branch_start` (its bit pattern) changes the settings hash.
pub proof fn lemma_edit_branch_start(a: SettingsBits, v: u32)
    requires
        v != a.branch_start,
    ensures
        property_hash_spec(settings_terms(a)) != property_hash_spec(settings_terms(SettingsBits { branch_start: v, ..a })),
{
    let b = SettingsBits { branch_start: v, ..a };
    assert(setting_number(a, 5) != setting_number(b, 5));
    assert forall|j: int| 0 <= j < SETTING_COUNT && j != 5 implies setting_number(a, j) == setting_number(b, j) by {}
    assert(differ_in_one(a, b));
    lemma_settings_change_detected(a, b);
}

/// Changing only `branch_end` (its bit pattern) changes the settings hash.
pub proof fn lemma_edit_branch_end(a: SettingsBits, v: u32)
    requires
        v != a.branch_end,
    ensures
        property_hash_spec(settings_terms(a)) != property_hash_spec(settings_terms(SettingsBits { branch_end: v, ..a })),
{
    let b = SettingsBits { branch_end: v, ..a };
    assert(setting_number(a, 6) != setting_number(b, 6));
    assert forall|j: int| 0 <= j < SETTING_COUNT && j != 6 implies setting_number(a, j) == setting_number(b, j) by {}
    assert(differ_in_one(a, b));
    lemma_settings_change_detected(a, b);
}

/// Changing only `branch_density` (its bit pattern) changes the settings hash.
pub proof fn lemma_edit_branch_density(a: SettingsBits, v: u32)
    requires
        v != a.branch_density,
    ensures
        property_hash_spec(settings_terms(a)) != property_hash_spec(settings_terms(SettingsBits { branch_density: v, ..a })),
{
    let b = SettingsBits { branch_density: v, ..a };
    assert(setting_number(a, 7) != setting_number(b, 7));
    assert forall|j: int| 0 <= j < SETTING_COUNT && j != 7 implies setting_number(a, j) == setting_number(b, j) by {}
    assert(differ_in_one(a, b));
    lemma_settings_change_detected(a, b);
}

/// Changing only `branch_length` (its bit pattern) changes the settings hash.
pub proof fn lemma_edit_branch_length(a: SettingsBits, v: u32)
    requires
        v != a.branch_length,
    ensures
        property_hash_spec(settings_terms(a)) != property_hash_spec(settings_terms(SettingsBits { branch_length: v, ..a })),
{
    let b = SettingsBits { branch_length: v, ..a };
    assert(setting_number(a, 8) != setting_number(b, 8));
    assert forall|j: int| 0 <= j < SETTING_COUNT && j != 8 implies setting_number(a, j) == setting_number(b, j) by {}
    assert(differ_in_one(a, b));
    lemma_settings_change_detected(a, b);
}

/// Changing only `branch_angle` (its bit pattern) changes the settings hash.
pub proof fn lemma_edit_branch_angle(a: SettingsBits, v: u32)
    requires
        v != a.branch_angle,
    ensures
        property_hash_spec(settings_terms(a)) != property_hash_spec(settings_terms(SettingsBits { branch_angle: v, ..a })),
{
    let b = SettingsBits { branch_angle: v, ..a };
    assert(setting_number(a, 9) != setting_number(b, 9));
    assert forall|j: int| 0 <= j < SETTING_COUNT && j != 9 implies setting_number(a, j) == setting_number(b, j) by {}
    assert(differ_in_one(a, b));
    lemma_settings_change_detected(a, b);
}

/// Changing only `branch_angle_mode` (its choice) changes the settings hash.
pub proof fn lemma_edit_branch_angle_mode(a: SettingsBits, v: u32)
    requires
        v != a.branch_angle_mode,
    ensures
        property_hash_spec(settings_terms(a)) != property_hash_spec(settings_terms(SettingsBits { branch_angle_mode: v, ..a })),
{
    let b = SettingsBits { branch_angle_mode: v, ..a };
    assert(setting_number(a, 10) != setting_number(b, 10));
    assert forall|j: int| 0 <= j < SETTING_COUNT && j != 10 implies setting_number(a, j) == setting_number(b, j) by {}
    assert(differ_in_one(a, b));
    lemma_settings_change_detected(a, b);
}

/// Changing only `branch_angle_curve_end` (its bit pattern) changes the settings hash.
pub proof fn lemma_edit_branch_angle_curve_end(a: SettingsBits, v: u32)
    requires
        v != a.branch_angle_curve_end,
    ensures
        property_hash_spec(settings_terms(a)) != property_hash_spec(settings_terms(SettingsBits { branch_angle_curve_end: v, ..a })),
{
    let b = SettingsBits { branch_angle_curve_end: v, ..a };
    assert(setting_number(a, 11) != setting_number(b, 11));
    assert forall|j: int| 0 <= j < SETTING_COUNT && j != 11 implies setting_number(a, j) == setting_number(b, j) by {}
    assert(differ_in_one(a, b));
    lemma_settings_change_detected(a, b);
}

/// Changing only `branch_angle_curve_power` (its bit pattern) changes the settings hash.
pub proof fn lemma_edit_branch_angle_curve_power(a: SettingsBits, v: u32)
    requires
        v != a.branch_angle_curve_power,
    ensures
        property_hash_spec(settings_terms(a)) != property_hash_spec(settings_terms(SettingsBits { branch_angle_curve_power: v, ..a })),
{
    let b = SettingsBits { branch_angle_curve_power: v, ..a };
    assert(setting_number(a, 12) != setting_number(b, 12));
    assert forall|j: int| 0 <= j < SETTING_COUNT && j != 12 implies setting_number(a, j) == setting_number(b, j) by {}
    assert(differ_in_one(a, b));
    lemma_settings_change_detected(a, b);
}

/// Changing only `branch_angle_variation` (its bit pattern) changes the settings hash.
pub proof fn lemma_edit_branch_angle_variation(a: SettingsBits, v: u32)
    requires
        v != a.branch_angle_variation,
    ensures
        property_hash_spec(settings_terms(a)) != property_hash_spec(settings_terms(SettingsBits { branch_angle_variation: v, ..a })),
{
    let b = SettingsBits { branch_angle_variation: v, ..a };
    assert(setting_number(a, 13) != setting_number(b, 13));
    assert forall|j: int| 0 <= j < SETTING_COUNT && j != 13 implies setting_number(a, j) == setting_number(b, j) by {}
    assert(differ_in_one(a, b));
    lemma_settings_change_detected(a, b);
}

/// Changing only `branch_radius_ratio` (its bit pattern) changes the settings hash.
pub proof fn lemma_edit_branch_radius_ratio(a: SettingsBits, v: u32)
    requires
        v != a.branch_radius_ratio,
    ensures
        property_hash_spec(settings_terms(a)) != property_hash_spec(settings_terms(SettingsBits { branch_radius_ratio: v, ..a })),
{
    let b = SettingsBits { branch_radius_ratio: v, ..a };
    assert(setting_number(a, 14) != setting_number(b, 14));
    assert forall|j: int| 0 <= j < SETTING_COUNT && j != 14 implies setting_number(a, j) == setting_number(b, j) by {}
    assert(differ_in_one(a, b));
    lemma_settings_change_detected(a, b);
}

/// Changing only `branch_taper` (its bit pattern) changes the settings hash.
pub proof fn lemma_edit_branch_taper(a: SettingsBits, v: u32)
    requires
        v != a.branch_taper,
    ensures
        property_hash_spec(settings_terms(a)) != property_hash_spec(settings_terms(SettingsBits { branch_taper: v, ..a })),
{
    let b = SettingsBits { branch_taper: v, ..a };
    assert(setting_number(a, 15) != setting_number(b, 15));
    assert forall|j: int| 0 <= j < SETTING_COUNT && j != 15 implies setting_number(a, j) == setting_number(b, j) by {}
    assert(differ_in_one(a, b));
    lemma_settings_change_detected(a, b);
}

/// Changing only `taper_mode` (its choice) changes the settings hash.
pub proof fn lemma_edit_taper_mode(a: SettingsBits, v: u32)
    requires
        v != a.taper_mode,
    ensures
        property_hash_spec(settings_terms(a)) != property_hash_spec(settings_terms(SettingsBits { taper_mode: v, ..a })),
{
    let b = SettingsBits { taper_mode: v, ..a };
    assert(setting_number(a, 16) != setting_number(b, 16));
    assert forall|j: int| 0 <= j < SETTING_COUNT && j != 16 implies setting_number(a, j) == setting_number(b, j) by {}
    assert(differ_in_one(a, b));
    lemma_settings_change_detected(a, b);
}

/// Changing only `branch_end_radius` (its bit pattern) changes the settings hash.
pub proof fn lemma_edit_branch_end_radius(a: SettingsBits, v: u32)
    requires
        v != a.branch_end_radius,
    ensures
        property_hash_spec(settings_terms(a)) != property_hash_spec(settings_terms(SettingsBits { branch_end_radius: v, ..a })),
{
    let b = SettingsBits { branch_end_radius: v, ..a };
    assert(setting_number(a, 17) != setting_number(b, 17));
    assert forall|j: int| 0 <= j < SETTING_COUNT && j != 17 implies setting_number(a, j) == setting_number(b, j) by {}
    assert(differ_in_one(a, b));
    lemma_settings_change_detected(a, b);
}

/// Changing only `phyllotaxis_angle` (its bit pattern) changes the settings hash.
pub proof fn lemma_edit_phyllotaxis_angle(a: SettingsBits, v: u32)
    requires
        v != a.phyllotaxis_angle,
    ensures
        property_hash_spec(settings_terms(a)) != property_hash_spec(settings_terms(SettingsBits { phyllotaxis_angle: v, ..a })),
{
    let b = SettingsBits { phyllotaxis_angle: v, ..a };
    assert(setting_number(a, 18) != setting_number(b, 18));
    assert forall|j: int| 0 <= j < SETTING_COUNT && j != 18 implies setting_number(a, j) == setting_number(b, j) by {}
    assert(differ_in_one(a, b));
    lemma_settings_change_detected(a, b);
}

/// Changing only `branch_randomness` (its bit pattern) changes the settings hash.
pub proof fn lemma_edit_branch_randomness(a: SettingsBits, v: u32)
    requires
        v != a.branch_randomness,
    ensures
        property_hash_spec(settings_terms(a)) != property_hash_spec(settings_terms(SettingsBits { branch_randomness: v, ..a })),
{
    let b = SettingsBits { branch_randomness: v, ..a };
    assert(setting_number(a, 19) != setting_number(b, 19));
    assert forall|j: int| 0 <= j < SETTING_COUNT && j != 19 implies setting_number(a, j) == setting_number(b, j) by {}
    assert(differ_in_one(a, b));
    lemma_settings_change_detected(a, b);
}

/// Changing only `branch_randomness_mode` (its choice) changes the settings hash.
pub proof fn lemma_edit_branch_randomness_mode(a: SettingsBits, v: u32)
    requires
        v != a.branch_randomness_mode,
    ensures
        property_hash_spec(settings_terms(a)) != property_hash_spec(settings_terms(SettingsBits { branch_randomness_mode: v, ..a })),
{
    let b = SettingsBits { branch_randomness_mode: v, ..a };
    assert(setting_number(a, 20) != setting_number(b, 20));
    assert forall|j: int| 0 <= j < SETTING_COUNT && j != 20 implies setting_number(a, j) == setting_number(b, j) by {}
    assert(differ_in_one(a, b));
    lemma_settings_change_detected(a, b);
}

/// Changing only `branch_randomness_curve_end` (its bit pattern) changes the settings hash.
pub proof fn lemma_edit_branch_randomness_curve_end(a: SettingsBits, v: u32)
    requires
        v != a.branch_randomness_curve_end,
    ensures
        property_hash_spec(settings_terms(a)) != property_hash_spec(settings_terms(SettingsBits { branch_randomness_curve_end: v, ..a })),
{
    let b = SettingsBits { branch_randomness_curve_end: v, ..a };
    assert(setting_number(a, 21) != setting_number(b, 21));
    assert forall|j: int| 0 <= j < SETTING_COUNT && j != 21 implies setting_number(a, j) == setting_number(b, j) by {}
    assert(differ_in_one(a, b));
    lemma_settings_change_detected(a, b);
}

/// Changing only `branch_randomness_curve_power` (its bit pattern) changes the settings hash.
pub proof fn lemma_edit_branch_randomness_curve_power(a: SettingsBits, v: u32)
    requires
        v != a.branch_randomness_curve_power,
    ensures
        property_hash_spec(settings_terms(a)) != property_hash_spec(settings_terms(SettingsBits { branch_randomness_curve_power: v, ..a })),
{
    let b = SettingsBits { branch_randomness_curve_power: v, ..a };
    assert(setting_number(a, 22) != setting_number(b, 22));
    assert forall|j: int| 0 <= j < SETTING_COUNT && j != 22 implies setting_number(a, j) == setting_number(b, j) by {}
    assert(differ_in_one(a, b));
    lemma_settings_change_detected(a, b);
}

/// Changing only `branch_randomness_variation` (its bit pattern) changes the settings hash.
pub proof fn lemma_edit_branch_randomness_variation(a: SettingsBits, v: u32)
    requires
        v != a.branch_randomness_variation,
    ensures
        property_hash_spec(settings_terms(a)) != property_hash_spec(settings_terms(SettingsBits { branch_randomness_variation: v, ..a })),
{
    let b = SettingsBits { branch_randomness_variation: v, ..a };
    assert(setting_number(a, 23) != setting_number(b, 23));
    assert forall|j: int| 0 <= j < SETTING_COUNT && j != 23 implies setting_number(a, j) == setting_number(b, j) by {}
    assert(differ_in_one(a, b));
    lemma_settings_change_detected(a, b);
}

/// Changing only `up_attraction` (its bit pattern) changes the settings hash.
pub proof fn lemma_edit_up_attraction(a: SettingsBits, v: u32)
    requires
        v != a.up_attraction,
    ensures
        property_hash_spec(settings_terms(a)) != property_hash_spec(settings_terms(SettingsBits { up_attraction: v, ..a })),
{
    let b = SettingsBits { up_attraction: v, ..a };
    assert(setting_number(a, 24) != setting_number(b, 24));
    assert forall|j: int| 0 <= j < SETTING_COUNT && j != 24 implies setting_number(a, j) == setting_number(b, j) by {}
    assert(differ_in_one(a, b));
    lemma_settings_change_detected(a, b);
}

/// Changing only `branch_recursion` (its value) changes the settings hash.
pub proof fn lemma_edit_branch_recursion(a: SettingsBits, v: i32)
    requires
        v != a.branch_recursion,
    ensures
        property_hash_spec(settings_terms(a)) != property_hash_spec(settings_terms(SettingsBits { branch_recursion: v, ..a })),
{
    let b = SettingsBits { branch_recursion: v, ..a };
    assert(setting_number(a, 25) != setting_number(b, 25));
    assert forall|j: int| 0 <= j < SETTING_COUNT && j != 25 implies setting_number(a, j) == setting_number(b, j) by {}
    assert(differ_in_one(a, b));
    lemma_settings_change_detected(a, b);
}

/// Changing only `sub_branch_count` (its value) changes the settings hash.
pub proof fn lemma_edit_sub_branch_count(a: SettingsBits, v: i32)
    requires
        v != a.sub_branch_count,
    ensures
        property_hash_spec(settings_terms(a)) != property_hash_spec(settings_terms(SettingsBits { sub_branch_count: v, ..a })),
{
    let b = SettingsBits { sub_branch_count: v, ..a };
    assert(setting_number(a, 26) != setting_number(b, 26));
    assert forall|j: int| 0 <= j < SETTING_COUNT && j != 26 implies setting_number(a, j) == setting_number(b, j) by {}
    assert(differ_in_one(a, b));
    lemma_settings_change_detected(a, b);
}

/// Changing only `sub_branch_scale` (its bit pattern) changes the settings hash.
pub proof fn lemma_edit_sub_branch_scale(a: SettingsBits, v: u32)
    requires
        v != a.sub_branch_scale,
    ensures
        property_hash_spec(settings_terms(a)) != property_hash_spec(settings_terms(SettingsBits { sub_branch_scale: v, ..a })),
{
    let b = SettingsBits { sub_branch_scale: v, ..a };
    assert(setting_number(a, 27) != setting_number(b, 27));
    assert forall|j: int| 0 <= j < SETTING_COUNT && j != 27 implies setting_number(a, j) == setting_number(b, j) by {}
    assert(differ_in_one(a, b));
    lemma_settings_change_detected(a, b);
}

/// Changing only `branch_flatness` (its bit pattern) changes the settings hash.
pub proof fn lemma_edit_branch_flatness(a: SettingsBits, v: u32)
    requires
        v != a.branch_flatness,
    ensures
        property_hash_spec(settings_terms(a)) != property_hash_spec(settings_terms(SettingsBits { branch_flatness: v, ..a })),
{
    let b = SettingsBits { branch_flatness: v, ..a };
    assert(setting_number(a, 28) != setting_number(b, 28));
    assert forall|j: int| 0 <= j < SETTING_COUNT && j != 28 implies setting_number(a, j) == setting_number(b, j) by {}
    assert(differ_in_one(a, b));
    lemma_settings_change_detected(a, b);
}

/// Changing only `branch_angle_curve` (its bit pattern) changes the settings hash.
pub proof fn lemma_edit_branch_angle_curve(a: SettingsBits, v: u32)
    requires
        v != a.branch_angle_curve,
    ensures
        property_hash_spec(settings_terms(a)) != property_hash_spec(settings_terms(SettingsBits { branch_angle_curve: v, ..a })),
{
    let b = SettingsBits { branch_angle_curve: v, ..a };
    assert(setting_number(a, 29) != setting_number(b, 29));
    assert forall|j: int| 0 <= j < SETTING_COUNT && j != 29 implies setting_number(a, j) == setting_number(b, j) by {}
    assert(differ_in_one(a, b));
    lemma_settings_change_detected(a, b);
}

/// Changing only `crown_angle_variation` (its bit pattern) changes the settings hash.
pub proof fn lemma_edit_crown_angle_variation(a: SettingsBits, v: u32)
    requires
        v != a.crown_angle_variation,
    ensures
        property_hash_spec(settings_terms(a)) != property_hash_spec(settings_terms(SettingsBits { crown_angle_variation: v, ..a })),
{
    let b = SettingsBits { crown_angle_variation: v, ..a };
    assert(setting_number(a, 30) != setting_number(b, 30));
    assert forall|j: int| 0 <= j < SETTING_COUNT && j != 30 implies setting_number(a, j) == setting_number(b, j) by {}
    assert(differ_in_one(a, b));
    lemma_settings_change_detected(a, b);
}

/// Changing only `branch_resolution` (its bit pattern) changes the settings hash.
pub proof fn lemma_edit_branch_resolution(a: SettingsBits, v: u32)
    requires
        v != a.branch_resolution,
    ensures
        property_hash_spec(settings_terms(a)) != property_hash_spec(settings_terms(SettingsBits { branch_resolution: v, ..a })),
{
    let b = SettingsBits { branch_resolution: v, ..a };
    assert(setting_number(a, 31) != setting_number(b, 31));
    assert forall|j: int| 0 <= j < SETTING_COUNT && j != 31 implies setting_number(a, j) == setting_number(b, j) by {}
    assert(differ_in_one(a, b));
    lemma_settings_change_detected(a, b);
}

/// Changing only `branch_length_variation` (its bit pattern) changes the settings hash.
pub proof fn lemma_edit_branch_length_variation(a: SettingsBits, v: u32)
    requires
        v != a.branch_length_variation,
    ensures
        property_hash_spec(settings_terms(a)) != property_hash_spec(settings_terms(SettingsBits { branch_length_variation: v, ..a })),
{
    let b = SettingsBits { branch_length_variation: v, ..a };
    assert(setting_number(a, 32) != setting_number(b, 32));
    assert forall|j: int| 0 <= j < SETTING_COUNT && j != 32 implies setting_number(a, j) == setting_number(b, j) by {}
    assert(differ_in_one(a, b));
    lemma_settings_change_detected(a, b);
}

/// Changing only `branch_length_curve_end` (its bit pattern) changes the settings hash.
pub proof fn lemma_edit_branch_length_curve_end(a: SettingsBits, v: u32)
    requires
        v != a.branch_length_curve_end,
    ensures
        property_hash_spec(settings_terms(a)) != property_hash_spec(settings_terms(SettingsBits { branch_length_curve_end: v, ..a })),
{
    let b = SettingsBits { branch_length_curve_end: v, ..a };
    assert(setting_number(a, 33) != setting_number(b, 33));
    assert forall|j: int| 0 <= j < SETTING_COUNT && j != 33 implies setting_number(a, j) == setting_number(b, j) by {}
    assert(differ_in_one(a, b));
    lemma_settings_change_detected(a, b);
}

/// Changing only `branch_length_curve_power` (its bit pattern) changes the settings hash.
pub proof fn lemma_edit_branch_length_curve_power(a: SettingsBits, v: u32)
    requires
        v != a.branch_length_curve_power,
    ensures
        property_hash_spec(settings_terms(a)) != property_hash_spec(settings_terms(SettingsBits { branch_length_curve_power: v, ..a })),
{
    let b = SettingsBits { branch_length_curve_power: v, ..a };
    assert(setting_number(a, 34) != setting_number(b, 34));
    assert forall|j: int| 0 <= j < SETTING_COUNT && j != 34 implies setting_number(a, j) == setting_number(b, j) by {}
    assert(differ_in_one(a, b));
    lemma_settings_change_detected(a, b);
}

/// Changing only `branch_radius_curve_end` (its bit pattern) changes the settings hash.
pub proof fn lemma_edit_branch_radius_curve_end(a: SettingsBits, v: u32)
    requires
        v != a.branch_radius_curve_end,
    ensures
        property_hash_spec(settings_terms(a)) != property_hash_spec(settings_terms(SettingsBits { branch_radius_curve_end: v, ..a })),
{
    let b = SettingsBits { branch_radius_curve_end: v, ..a };
    assert(setting_number(a, 35) != setting_number(b, 35));
    assert forall|j: int| 0 <= j < SETTING_COUNT && j != 35 implies setting_number(a, j) == setting_number(b, j) by {}
    assert(differ_in_one(a, b));
    lemma_settings_change_detected(a, b);
}

/// Changing only `branch_radius_curve_power` (its bit pattern) changes the settings hash.
pub proof fn lemma_edit_branch_radius_curve_power(a: SettingsBits, v: u32)
    requires
        v != a.branch_radius_curve_power,
    ensures
        property_hash_spec(settings_terms(a)) != property_hash_spec(settings_terms(SettingsBits { branch_radius_curve_power: v, ..a })),
{
    let b = SettingsBits { branch_radius_curve_power: v, ..a };
    assert(setting_number(a, 36) != setting_number(b, 36));
    assert forall|j: int| 0 <= j < SETTING_COUNT && j != 36 implies setting_number(a, j) == setting_number(b, j) by {}
    assert(differ_in_one(a, b));
    lemma_settings_change_detected(a, b);
}

/// Changing only `sub_branch_position_bias` (its bit pattern) changes the settings hash.
pub proof fn lemma_edit_sub_branch_position_bias(a: SettingsBits, v: u32)
    requires
        v != a.sub_branch_position_bias,
    ensures
        property_hash_spec(settings_terms(a)) != property_hash_spec(settings_terms(SettingsBits { sub_branch_position_bias: v, ..a })),
{
    let b = SettingsBits { sub_branch_position_bias: v, ..a };
    assert(setting_number(a, 37) != setting_number(b, 37));
    assert forall|j: int| 0 <= j < SETTING_COUNT && j != 37 implies setting_number(a, j) == setting_number(b, j) by {}
    assert(differ_in_one(a, b));
    lemma_settings_change_detected(a, b);
}

/// Changing only `apical_dominance` (its bit pattern) changes the settings hash.
pub proof fn lemma_edit_apical_dominance(a: SettingsBits, v: u32)
    requires
        v != a.apical_dominance,
    ensures
        property_hash_spec(settings_terms(a)) != property_hash_spec(settings_terms(SettingsBits { apical_dominance: v, ..a })),
{
    let b = SettingsBits { apical_dominance: v, ..a };
    assert(setting_number(a, 38) != setting_number(b, 38));
    assert forall|j: int| 0 <= j < SETTING_COUNT && j != 38 implies setting_number(a, j) == setting_number(b, j) by {}
    assert(differ_in_one(a, b));
    lemma_settings_change_detected(a, b);
}

/// Changing only `crown_shape` (its choice) changes the settings hash.
pub proof fn lemma_edit_crown_shape(a: SettingsBits, v: u32)
    requires
        v != a.crown_shape,
    ensures
        property_hash_spec(settings_terms(a)) != property_hash_spec(settings_terms(SettingsBits { crown_shape: v, ..a })),
{
    let b = SettingsBits { crown_shape: v, ..a };
    assert(setting_number(a, 39) != setting_number(b, 39));
    assert forall|j: int| 0 <= j < SETTING_COUNT && j != 39 implies setting_number(a, j) == setting_number(b, j) by {}
    assert(differ_in_one(a, b));
    lemma_settings_change_detected(a, b);
}

/// Changing only `crown_influence` (its bit pattern) changes the settings hash.
pub proof fn lemma_edit_crown_influence(a: SettingsBits, v: u32)
    requires
        v != a.crown_influence,
    ensures
        property_hash_spec(settings_terms(a)) != property_hash_spec(settings_terms(SettingsBits { crown_influence: v, ..a })),
{
    let b = SettingsBits { crown_influence: v, ..a };
    assert(setting_number(a, 40) != setting_number(b, 40));
    assert forall|j: int| 0 <= j < SETTING_COUNT && j != 40 implies setting_number(a, j) == setting_number(b, j) by {}
    assert(differ_in_one(a, b));
    lemma_settings_change_detected(a, b);
}

/// Changing only `crown_base_size` (its bit pattern) changes the settings hash.
pub proof fn lemma_edit_crown_base_size(a: SettingsBits, v: u32)
    requires
        v != a.crown_base_size,
    ensures
        property_hash_spec(settings_terms(a)) != property_hash_spec(settings_terms(SettingsBits { crown_base_size: v, ..a })),
{
    let b = SettingsBits { crown_base_size: v, ..a };
    assert(setting_number(a, 41) != setting_number(b, 41));
    assert forall|j: int| 0 <= j < SETTING_COUNT && j != 41 implies setting_number(a, j) == setting_number(b, j) by {}
    assert(differ_in_one(a, b));
    lemma_settings_change_detected(a, b);
}

/// Changing only `crown_height` (its bit pattern) changes the settings hash.
pub proof fn lemma_edit_crown_height(a: SettingsBits, v: u32)
    requires
        v != a.crown_height,
    ensures
        property_hash_spec(settings_terms(a)) != property_hash_spec(settings_terms(SettingsBits { crown_height: v, ..a })),
{
    let b = SettingsBits { crown_height: v, ..a };
    assert(setting_number(a, 42) != setting_number(b, 42));
    assert forall|j: int| 0 <= j < SETTING_COUNT && j != 42 implies setting_number(a, j) == setting_number(b, j) by {}
    assert(differ_in_one(a, b));
    lemma_settings_change_detected(a, b);
}

/// Changing only `seed` (its value) changes the settings hash.
pub proof fn lemma_edit_seed(a: SettingsBits, v: i32)
    requires
        v != a.seed,
    ensures
        property_hash_spec(settings_terms(a)) != property_hash_spec(settings_terms(SettingsBits { seed: v, ..a })),
{
    let b = SettingsBits { seed: v, ..a };
    assert(setting_number(a, 43) != setting_number(b, 43));
    assert forall|j: int| 0 <= j < SETTING_COUNT && j != 43 implies setting_number(a, j) == setting_number(b, j) by {}
    assert(differ_in_one(a, b));
    lemma_settings_change_detected(a, b);
}

/// Changing only `foliage_enabled` (switching it) changes the settings hash.
pub proof fn lemma_edit_foliage_enabled(a: SettingsBits, v: bool)
    requires
        v != a.foliage_enabled,
    ensures
        property_hash_spec(settings_terms(a)) != property_hash_spec(settings_terms(SettingsBits { foliage_enabled: v, ..a })),
{
    let b = SettingsBits { foliage_enabled: v, ..a };
    assert(setting_number(a, 44) == if a.foliage_enabled { 1int } else { 0int });
    assert(setting_number(b, 44) == if v { 1int } else { 0int });
    assert(setting_number(a, 44) != setting_number(b, 44));
    assert forall|j: int| 0 <= j < SETTING_COUNT && j != 44 implies setting_number(a, j) == setting_number(b, j) by {}
    assert(differ_in_one(a, b));
    lemma_settings_change_detected(a, b);
}

/// Changing only `leaf_style` (its choice) changes the settings hash.
pub proof fn lemma_edit_leaf_style(a: SettingsBits, v: u32)
    requires
        v != a.leaf_style,
    ensures
        property_hash_spec(settings_terms(a)) != property_hash_spec(settings_terms(SettingsBits { leaf_style: v, ..a })),
{
    let b = SettingsBits { leaf_style: v, ..a };
    assert(setting_number(a, 45) != setting_number(b, 45));
    assert forall|j: int| 0 <= j < SETTING_COUNT && j != 45 implies setting_number(a, j) == setting_number(b, j) by {}
    assert(differ_in_one(a, b));
    lemma_settings_change_detected(a, b);
}

/// Changing only `foliage_placement` (its choice) changes the settings hash.
pub proof fn lemma_edit_foliage_placement(a: SettingsBits, v: u32)
    requires
        v != a.foliage_placement,
    ensures
        property_hash_spec(settings_terms(a)) != property_hash_spec(settings_terms(SettingsBits { foliage_placement: v, ..a })),
{
    let b = SettingsBits { foliage_placement: v, ..a };
    assert(setting_number(a, 46) != setting_number(b, 46));
    assert forall|j: int| 0 <= j < SETTING_COUNT && j != 46 implies setting_number(a, j) == setting_number(b, j) by {}
    assert(differ_in_one(a, b));
    lemma_settings_change_detected(a, b);
}

/// Changing only `leaf_orientation` (its choice) changes the settings hash.
pub proof fn lemma_edit_leaf_orientation(a: SettingsBits, v: u32)
    requires
        v != a.leaf_orientation,
    ensures
        property_hash_spec(settings_terms(a)) != property_hash_spec(settings_terms(SettingsBits { leaf_orientation: v, ..a })),
{
    let b = SettingsBits { leaf_orientation: v, ..a };
    assert(setting_number(a, 47) != setting_number(b, 47));
    assert forall|j: int| 0 <= j < SETTING_COUNT && j != 47 implies setting_number(a, j) == setting_number(b, j) by {}
    assert(differ_in_one(a, b));
    lemma_settings_change_detected(a, b);
}

/// Changing only `foliage_density` (its bit pattern) changes the settings hash.
pub proof fn lemma_edit_foliage_density(a: SettingsBits, v: u32)
    requires
        v != a.foliage_density,
    ensures
        property_hash_spec(settings_terms(a)) != property_hash_spec(settings_terms(SettingsBits { foliage_density: v, ..a })),
{
    let b = SettingsBits { foliage_density: v, ..a };
    assert(setting_number(a, 48) != setting_number(b, 48));
    assert forall|j: int| 0 <= j < SETTING_COUNT && j != 48 implies setting_number(a, j) == setting_number(b, j) by {}
    assert(differ_in_one(a, b));
    lemma_settings_change_detected(a, b);
}

/// Changing only `cluster_size` (its value) changes the settings hash.
pub proof fn lemma_edit_cluster_size(a: SettingsBits, v: i32)
    requires
        v != a.cluster_size,
    ensures
        property_hash_spec(settings_terms(a)) != property_hash_spec(settings_terms(SettingsBits { cluster_size: v, ..a })),
{
    let b = SettingsBits { cluster_size: v, ..a };
    assert(setting_number(a, 49) != setting_number(b, 49));
    assert forall|j: int| 0 <= j < SETTING_COUNT && j != 49 implies setting_number(a, j) == setting_number(b, j) by {}
    assert(differ_in_one(a, b));
    lemma_settings_change_detected(a, b);
}

/// Changing only `leaf_size` (its bit pattern) changes the settings hash.
pub proof fn lemma_edit_leaf_size(a: SettingsBits, v: u32)
    requires
        v != a.leaf_size,
    ensures
        property_hash_spec(settings_terms(a)) != property_hash_spec(settings_terms(SettingsBits { leaf_size: v, ..a })),
{
    let b = SettingsBits { leaf_size: v, ..a };
    assert(setting_number(a, 50) != setting_number(b, 50));
    assert forall|j: int| 0 <= j < SETTING_COUNT && j != 50 implies setting_number(a, j) == setting_number(b, j) by {}
    assert(differ_in_one(a, b));
    lemma_settings_change_detected(a, b);
}

/// Changing only `leaf_size_variation` (its bit pattern) changes the settings hash.
pub proof fn lemma_edit_leaf_size_variation(a: SettingsBits, v: u32)
    requires
        v != a.leaf_size_variation,
    ensures
        property_hash_spec(settings_terms(a)) != property_hash_spec(settings_terms(SettingsBits { leaf_size_variation: v, ..a })),
{
    let b = SettingsBits { leaf_size_variation: v, ..a };
    assert(setting_number(a, 51) != setting_number(b, 51));
    assert forall|j: int| 0 <= j < SETTING_COUNT && j != 51 implies setting_number(a, j) == setting_number(b, j) by {}
    assert(differ_in_one(a, b));
    lemma_settings_change_detected(a, b);
}

/// Changing only `foliage_radius_threshold` (its bit pattern) changes the settings hash.
pub proof fn lemma_edit_foliage_radius_threshold(a: SettingsBits, v: u32)
    requires
        v != a.foliage_radius_threshold,
    ensures
        property_hash_spec(settings_terms(a)) != property_hash_spec(settings_terms(SettingsBits { foliage_radius_threshold: v, ..a })),
{
    let b = SettingsBits { foliage_radius_threshold: v, ..a };
    assert(setting_number(a, 52) != setting_number(b, 52));
    assert forall|j: int| 0 <= j < SETTING_COUNT && j != 52 implies setting_number(a, j) == setting_number(b, j) by {}
    assert(differ_in_one(a, b));
    lemma_settings_change_detected(a, b);
}

/// Changing only `foliage_height_falloff` (its bit pattern) changes the settings hash.
pub proof fn lemma_edit_foliage_height_falloff(a: SettingsBits, v: u32)
    requires
        v != a.foliage_height_falloff,
    ensures
        property_hash_spec(settings_terms(a)) != property_hash_spec(settings_terms(SettingsBits { foliage_height_falloff: v, ..a })),
{
    let b = SettingsBits { foliage_height_falloff: v, ..a };
    assert(setting_number(a, 53) != setting_number(b, 53));
    assert forall|j: int| 0 <= j < SETTING_COUNT && j != 53 implies setting_number(a, j) == setting_number(b, j) by {}
    assert(differ_in_one(a, b));
    lemma_settings_change_detected(a, b);
}

/// Changing only `leaf_droop` (its bit pattern) changes the settings hash.
pub proof fn lemma_edit_leaf_droop(a: SettingsBits, v: u32)
    requires
        v != a.leaf_droop,
    ensures
        property_hash_spec(settings_terms(a)) != property_hash_spec(settings_terms(SettingsBits { leaf_droop: v, ..a })),
{
    let b = SettingsBits { leaf_droop: v, ..a };
    assert(setting_number(a, 54) != setting_number(b, 54));
    assert forall|j: int| 0 <= j < SETTING_COUNT && j != 54 implies setting_number(a, j) == setting_number(b, j) by {}
    assert(differ_in_one(a, b));
    lemma_settings_change_detected(a, b);
}

/// Changing only `leaf_rotation_variation` (its bit pattern) changes the settings hash.
pub proof fn lemma_edit_leaf_rotation_variation(a: SettingsBits, v: u32)
    requires
        v != a.leaf_rotation_variation,
    ensures
        property_hash_spec(settings_terms(a)) != property_hash_spec(settings_terms(SettingsBits { leaf_rotation_variation: v, ..a })),
{
    let b = SettingsBits { leaf_rotation_variation: v, ..a };
    assert(setting_number(a, 55) != setting_number(b, 55));
    assert forall|j: int| 0 <= j < SETTING_COUNT && j != 55 implies setting_number(a, j) == setting_number(b, j) by {}
    assert(differ_in_one(a, b));
    lemma_settings_change_detected(a, b);
}

/// Changing only `use_crown_foliage_density` (switching it) changes the settings hash.
pub proof fn lemma_edit_use_crown_foliage_density(a: SettingsBits, v: bool)
    requires
        v != a.use_crown_foliage_density,
    ensures
        property_hash_spec(settings_terms(a)) != property_hash_spec(settings_terms(SettingsBits { use_crown_foliage_density: v, ..a })),
{
    let b = SettingsBits { use_crown_foliage_density: v, ..a };
    assert(setting_number(a, 56) == if a.use_crown_foliage_density { 1int } else { 0int });
    assert(setting_number(b, 56) == if v { 1int } else { 0int });
    assert(setting_number(a, 56) != setting_number(b, 56));
    assert forall|j: int| 0 <= j < SETTING_COUNT && j != 56 implies setting_number(a, j) == setting_number(b, j) by {}
    assert(differ_in_one(a, b));
    lemma_settings_change_detected(a, b);
}

/// Changing only `separate_foliage_mesh` (switching it) changes the settings hash.
pub proof fn lemma_edit_separate_foliage_mesh(a: SettingsBits, v: bool)
    requires
        v != a.separate_foliage_mesh,
    ensures
        property_hash_spec(settings_terms(a)) != property_hash_spec(settings_terms(SettingsBits { separate_foliage_mesh: v, ..a })),
{
    let b = SettingsBits { separate_foliage_mesh: v, ..a };
    assert(setting_number(a, 57) == if a.separate_foliage_mesh { 1int } else { 0int });
    assert(setting_number(b, 57) == if v { 1int } else { 0int });
    assert(setting_number(a, 57) != setting_number(b, 57));
    assert forall|j: int| 0 <= j < SETTING_COUNT && j != 57 implies setting_number(a, j) == setting_number(b, j) by {}
    assert(differ_in_one(a, b));
    lemma_settings_change_detected(a, b);
}

/// Changing only `trunk_color_r` (its bit pattern) changes the settings hash.
pub proof fn lemma_edit_trunk_color_r(a: SettingsBits, v: u32)
    requires
        v != a.trunk_color_r,
    ensures
        property_hash_spec(settings_terms(a)) != property_hash_spec(settings_terms(SettingsBits { trunk_color_r: v, ..a })),
{
    let b = SettingsBits { trunk_color_r: v, ..a };
    assert(setting_number(a, 58) != setting_number(b, 58));
    assert forall|j: int| 0 <= j < SETTING_COUNT && j != 58 implies setting_number(a, j) == setting_number(b, j) by {}
    assert(differ_in_one(a, b));
    lemma_settings_change_detected(a, b);
}

/// Changing only `trunk_color_g` (its bit pattern) changes the settings hash.
pub proof fn lemma_edit_trunk_color_g(a: SettingsBits, v: u32)
    requires
        v != a.trunk_color_g,
    ensures
        property_hash_spec(settings_terms(a)) != property_hash_spec(settings_terms(SettingsBits { trunk_color_g: v, ..a })),
{
    let b = SettingsBits { trunk_color_g: v, ..a };
    assert(setting_number(a, 59) != setting_number(b, 59));
    assert forall|j: int| 0 <= j < SETTING_COUNT && j != 59 implies setting_number(a, j) == setting_number(b, j) by {}
    assert(differ_in_one(a, b));
    lemma_settings_change_detected(a, b);
}

/// Changing only `trunk_color_b` (its bit pattern) changes the settings hash.
pub proof fn lemma_edit_trunk_color_b(a: SettingsBits, v: u32)
    requires
        v != a.trunk_color_b,
    ensures
        property_hash_spec(settings_terms(a)) != property_hash_spec(settings_terms(SettingsBits { trunk_color_b: v, ..a })),
{
    let b = SettingsBits { trunk_color_b: v, ..a };
    assert(setting_number(a, 60) != setting_number(b, 60));
    assert forall|j: int| 0 <= j < SETTING_COUNT && j != 60 implies setting_number(a, j) == setting_number(b, j) by {}
    assert(differ_in_one(a, b));
    lemma_settings_change_detected(a, b);
}

/// Changing only `foliage_color_r` (its bit pattern) changes the settings hash.
pub proof fn lemma_edit_foliage_color_r(a: SettingsBits, v: u32)
    requires
        v != a.foliage_color_r,
    ensures
        property_hash_spec(settings_terms(a)) != property_hash_spec(settings_terms(SettingsBits { foliage_color_r: v, ..a })),
{
    let b = SettingsBits { foliage_color_r: v, ..a };
    assert(setting_number(a, 61) != setting_number(b, 61));
    assert forall|j: int| 0 <= j < SETTING_COUNT && j != 61 implies setting_number(a, j) == setting_number(b, j) by {}
    assert(differ_in_one(a, b));
    lemma_settings_change_detected(a, b);
}

/// Changing only `foliage_color_g` (its bit pattern) changes the settings hash.
pub proof fn lemma_edit_foliage_color_g(a: SettingsBits, v: u32)
    requires
        v != a.foliage_color_g,
    ensures
        property_hash_spec(settings_terms(a)) != property_hash_spec(settings_terms(SettingsBits { foliage_color_g: v, ..a })),
{
    let b = SettingsBits { foliage_color_g: v, ..a };
    assert(setting_number(a, 62) != setting_number(b, 62));
    assert forall|j: int| 0 <= j < SETTING_COUNT && j != 62 implies setting_number(a, j) == setting_number(b, j) by {}
    assert(differ_in_one(a, b));
    lemma_settings_change_detected(a, b);
}

/// Changing only `foliage_color_b` (its bit pattern) changes the settings hash.
pub proof fn lemma_edit_foliage_color_b(a: SettingsBits, v: u32)
    requires
        v != a.foliage_color_b,
    ensures
        property_hash_spec(settings_terms(a)) != property_hash_spec(settings_terms(SettingsBits { foliage_color_b: v, ..a })),
{
    let b = SettingsBits { foliage_color_b: v, ..a };
    assert(setting_number(a, 63) != setting_number(b, 63));
    assert forall|j: int| 0 <= j < SETTING_COUNT && j != 63 implies setting_number(a, j) == setting_number(b, j) by {}
    assert(differ_in_one(a, b));
    lemma_settings_change_detected(a, b);
}

/// Changing only `trunk_twist` (its bit pattern) changes the settings hash.
pub proof fn lemma_edit_trunk_twist(a: SettingsBits, v: u32)
    requires
        v != a.trunk_twist,
    ensures
        property_hash_spec(settings_terms(a)) != property_hash_spec(settings_terms(SettingsBits { trunk_twist: v, ..a })),
{
    let b = SettingsBits { trunk_twist: v, ..a };
    assert(setting_number(a, 64) != setting_number(b, 64));
    assert forall|j: int| 0 <= j < SETTING_COUNT && j != 64 implies setting_number(a, j) == setting_number(b, j) by {}
    assert(differ_in_one(a, b));
    lemma_settings_change_detected(a, b);
}

/// Changing only `branch_twist` (its bit pattern) changes the settings hash.
pub proof fn lemma_edit_branch_twist(a: SettingsBits, v: u32)
    requires
        v != a.branch_twist,
    ensures
        property_hash_spec(settings_terms(a)) != property_hash_spec(settings_terms(SettingsBits { branch_twist: v, ..a })),
{
    let b = SettingsBits { branch_twist: v, ..a };
    assert(setting_number(a, 65) != setting_number(b, 65));
    assert forall|j: int| 0 <= j < SETTING_COUNT && j != 65 implies setting_number(a, j) == setting_number(b, j) by {}
    assert(differ_in_one(a, b));
    lemma_settings_change_detected(a, b);
}

/// Changing only `gravity_strength` (its bit pattern) changes the settings hash.
pub proof fn lemma_edit_gravity_strength(a: SettingsBits, v: u32)
    requires
        v != a.gravity_strength,
    ensures
        property_hash_spec(settings_terms(a)) != property_hash_spec(settings_terms(SettingsBits { gravity_strength: v, ..a })),
{
    let b = SettingsBits { gravity_strength: v, ..a };
    assert(setting_number(a, 66) != setting_number(b, 66));
    assert forall|j: int| 0 <= j < SETTING_COUNT && j != 66 implies setting_number(a, j) == setting_number(b, j) by {}
    assert(differ_in_one(a, b));
    lemma_settings_change_detected(a, b);
}

/// Changing only `split_enabled` (switching it) changes the settings hash.
pub proof fn lemma_edit_split_enabled(a: SettingsBits, v: bool)
    requires
        v != a.split_enabled,
    ensures
        property_hash_spec(settings_terms(a)) != property_hash_spec(settings_terms(SettingsBits { split_enabled: v, ..a })),
{
    let b = SettingsBits { split_enabled: v, ..a };
    assert(setting_number(a, 67) == if a.split_enabled { 1int } else { 0int });
    assert(setting_number(b, 67) == if v { 1int } else { 0int });
    assert(setting_number(a, 67) != setting_number(b, 67));
    assert forall|j: int| 0 <= j < SETTING_COUNT && j != 67 implies setting_number(a, j) == setting_number(b, j) by {}
    assert(differ_in_one(a, b));
    lemma_settings_change_detected(a, b);
}

/// Changing only `split_probability` (its bit pattern) changes the settings hash.
pub proof fn lemma_edit_split_probability(a: SettingsBits, v: u32)
    requires
        v != a.split_probability,
    ensures
        property_hash_spec(settings_terms(a)) != property_hash_spec(settings_terms(SettingsBits { split_probability: v, ..a })),
{
    let b = SettingsBits { split_probability: v, ..a };
    assert(setting_number(a, 68) != setting_number(b, 68));
    assert forall|j: int| 0 <= j < SETTING_COUNT && j != 68 implies setting_number(a, j) == setting_number(b, j) by {}
    assert(differ_in_one(a, b));
    lemma_settings_change_detected(a, b);
}

/// Changing only `split_angle` (its bit pattern) changes the settings hash.
pub proof fn lemma_edit_split_angle(a: SettingsBits, v: u32)
    requires
        v != a.split_angle,
    ensures
        property_hash_spec(settings_terms(a)) != property_hash_spec(settings_terms(SettingsBits { split_angle: v, ..a })),
{
    let b = SettingsBits { split_angle: v, ..a };
    assert(setting_number(a, 69) != setting_number(b, 69));
    assert forall|j: int| 0 <= j < SETTING_COUNT && j != 69 implies setting_number(a, j) == setting_number(b, j) by {}
    assert(differ_in_one(a, b));
    lemma_settings_change_detected(a, b);
}

/// Changing only `split_position` (its bit pattern) changes the settings hash.
pub proof fn lemma_edit_split_position(a: SettingsBits, v: u32)
    requires
        v != a.split_position,
    ensures
        property_hash_spec(settings_terms(a)) != property_hash_spec(settings_terms(SettingsBits { split_position: v, ..a })),
{
    let b = SettingsBits { split_position: v, ..a };
    assert(setting_number(a, 70) != setting_number(b, 70));
    assert forall|j: int| 0 <= j < SETTING_COUNT && j != 70 implies setting_number(a, j) == setting_number(b, j) by {}
    assert(differ_in_one(a, b));
    lemma_settings_change_detected(a, b);
}

/// Changing only `split_radius_threshold` (its bit pattern) changes the settings hash.
pub proof fn lemma_edit_split_radius_threshold(a: SettingsBits, v: u32)
    requires
        v != a.split_radius_threshold,
    ensures
        property_hash_spec(settings_terms(a)) != property_hash_spec(settings_terms(SettingsBits { split_radius_threshold: v, ..a })),
{
    let b = SettingsBits { split_radius_threshold: v, ..a };
    assert(setting_number(a, 71) != setting_number(b, 71));
    assert forall|j: int| 0 <= j < SETTING_COUNT && j != 71 implies setting_number(a, j) == setting_number(b, j) by {}
    assert(differ_in_one(a, b));
    lemma_settings_change_detected(a, b);
}

/// Changing only `split_radius_multiplier` (its bit pattern) changes the settings hash.
pub proof fn lemma_edit_split_radius_multiplier(a: SettingsBits, v: u32)
    requires
        v != a.split_radius_multiplier,
    ensures
        property_hash_spec(settings_terms(a)) != property_hash_spec(settings_terms(SettingsBits { split_radius_multiplier: v, ..a })),
{
    let b = SettingsBits { split_radius_multiplier: v, ..a };
    assert(setting_number(a, 72) != setting_number(b, 72));
    assert forall|j: int| 0 <= j < SETTING_COUNT && j != 72 implies setting_number(a, j) == setting_number(b, j) by {}
    assert(differ_in_one(a, b));
    lemma_settings_change_detected(a, b);
}

/// Changing only `trunk_taper` (its bit pattern) changes the settings hash.
pub proof fn lemma_edit_trunk_taper(a: SettingsBits, v: u32)
    requires
        v != a.trunk_taper,
    ensures
        property_hash_spec(settings_terms(a)) != property_hash_spec(settings_terms(SettingsBits { trunk_taper: v, ..a })),
{
    let b = SettingsBits { trunk_taper: v, ..a };
    assert(setting_number(a, 73) != setting_number(b, 73));
    assert forall|j: int| 0 <= j < SETTING_COUNT && j != 73 implies setting_number(a, j) == setting_number(b, j) by {}
    assert(differ_in_one(a, b));
    lemma_settings_change_detected(a, b);
}

/// Changing only `trunk_taper_curve` (its bit pattern) changes the settings hash.
pub proof fn lemma_edit_trunk_taper_curve(a: SettingsBits, v: u32)
    requires
        v != a.trunk_taper_curve,
    ensures
        property_hash_spec(settings_terms(a)) != property_hash_spec(settings_terms(SettingsBits { trunk_taper_curve: v, ..a })),
{
    let b = SettingsBits { trunk_taper_curve: v, ..a };
    assert(setting_number(a, 74) != setting_number(b, 74));
    assert forall|j: int| 0 <= j < SETTING_COUNT && j != 74 implies setting_number(a, j) == setting_number(b, j) by {}
    assert(differ_in_one(a, b));
    lemma_settings_change_detected(a, b);
}

/// Changing only `trunk_flare` (its bit pattern) changes the settings hash.
pub proof fn lemma_edit_trunk_flare(a: SettingsBits, v: u32)
    requires
        v != a.trunk_flare,
    ensures
        property_hash_spec(settings_terms(a)) != property_hash_spec(settings_terms(SettingsBits { trunk_flare: v, ..a })),
{
    let b = SettingsBits { trunk_flare: v, ..a };
    assert(setting_number(a, 75) != setting_number(b, 75));
    assert forall|j: int| 0 <= j < SETTING_COUNT && j != 75 implies setting_number(a, j) == setting_number(b, j) by {}
    assert(differ_in_one(a, b));
    lemma_settings_change_detected(a, b);
}

/// Changing only `trunk_randomness` (its bit pattern) changes the settings hash.
pub proof fn lemma_edit_trunk_randomness(a: SettingsBits, v: u32)
    requires
        v != a.trunk_randomness,
    ensures
        property_hash_spec(settings_terms(a)) != property_hash_spec(settings_terms(SettingsBits { trunk_randomness: v, ..a })),
{
    let b = SettingsBits { trunk_randomness: v, ..a };
    assert(setting_number(a, 76) != setting_number(b, 76));
    assert forall|j: int| 0 <= j < SETTING_COUNT && j != 76 implies setting_number(a, j) == setting_number(b, j) by {}
    assert(differ_in_one(a, b));
    lemma_settings_change_detected(a, b);
}

/// Changing only `root_flare_count` (its value) changes the settings hash.
pub proof fn lemma_edit_root_flare_count(a: SettingsBits, v: i32)
    requires
        v != a.root_flare_count,
    ensures
        property_hash_spec(settings_terms(a)) != property_hash_spec(settings_terms(SettingsBits { root_flare_count: v, ..a })),
{
    let b = SettingsBits { root_flare_count: v, ..a };
    assert(setting_number(a, 77) != setting_number(b, 77));
    assert forall|j: int| 0 <= j < SETTING_COUNT && j != 77 implies setting_number(a, j) == setting_number(b, j) by {}
    assert(differ_in_one(a, b));
    lemma_settings_change_detected(a, b);
}

/// Changing only `root_flare_spread` (its bit pattern) changes the settings hash.
pub proof fn lemma_edit_root_flare_spread(a: SettingsBits, v: u32)
    requires
        v != a.root_flare_spread,
    ensures
        property_hash_spec(settings_terms(a)) != property_hash_spec(settings_terms(SettingsBits { root_flare_spread: v, ..a })),
{
    let b = SettingsBits { root_flare_spread: v, ..a };
    assert(setting_number(a, 78) != setting_number(b, 78));
    assert forall|j: int| 0 <= j < SETTING_COUNT && j != 78 implies setting_number(a, j) == setting_number(b, j) by {}
    assert(differ_in_one(a, b));
    lemma_settings_change_detected(a, b);
}

/// Changing only `root_flare_height` (its bit pattern) changes the settings hash.
pub proof fn lemma_edit_root_flare_height(a: SettingsBits, v: u32)
    requires
        v != a.root_flare_height,
    ensures
        property_hash_spec(settings_terms(a)) != property_hash_spec(settings_terms(SettingsBits { root_flare_height: v, ..a })),
{
    let b = SettingsBits { root_flare_height: v, ..a };
    assert(setting_number(a, 79) != setting_number(b, 79));
    assert forall|j: int| 0 <= j < SETTING_COUNT && j != 79 implies setting_number(a, j) == setting_number(b, j) by {}
    assert(differ_in_one(a, b));
    lemma_settings_change_detected(a, b);
}

/// Changing only `break_chance` (its bit pattern) changes the settings hash.
pub proof fn lemma_edit_break_chance(a: SettingsBits, v: u32)
    requires
        v != a.break_chance,
    ensures
        property_hash_spec(settings_terms(a)) != property_hash_spec(settings_terms(SettingsBits { break_chance: v, ..a })),
{
    let b = SettingsBits { break_chance: v, ..a };
    assert(setting_number(a, 80) != setting_number(b, 80));
    assert forall|j: int| 0 <= j < SETTING_COUNT && j != 80 implies setting_number(a, j) == setting_number(b, j) by {}
    assert(differ_in_one(a, b));
    lemma_settings_change_detected(a, b);
}

/// Changing only `stiffness` (its bit pattern) changes the settings hash.
pub proof fn lemma_edit_stiffness(a: SettingsBits, v: u32)
    requires
        v != a.stiffness,
    ensures
        property_hash_spec(settings_terms(a)) != property_hash_spec(settings_terms(SettingsBits { stiffness: v, ..a })),
{
    let b = SettingsBits { stiffness: v, ..a };
    assert(setting_number(a, 81) != setting_number(b, 81));
    assert forall|j: int| 0 <= j < SETTING_COUNT && j != 81 implies setting_number(a, j) == setting_number(b, j) by {}
    assert(differ_in_one(a, b));
    lemma_settings_change_detected(a, b);
}

/// Changing only `trunk_termination` (its choice) changes the settings hash.
pub proof fn lemma_edit_trunk_termination(a: SettingsBits, v: u32)
    requires
        v != a.trunk_termination,
    ensures
        property_hash_spec(settings_terms(a)) != property_hash_spec(settings_terms(SettingsBits { trunk_termination: v, ..a })),
{
    let b = SettingsBits { trunk_termination: v, ..a };
    assert(setting_number(a, 82) != setting_number(b, 82));
    assert forall|j: int| 0 <= j < SETTING_COUNT && j != 82 implies setting_number(a, j) == setting_number(b, j) by {}
    assert(differ_in_one(a, b));
    lemma_settings_change_detected(a, b);
}

/// Changing only `leader_length` (its bit pattern) changes the settings hash.
pub proof fn lemma_edit_leader_length(a: SettingsBits, v: u32)
    requires
        v != a.leader_length,
    ensures
        property_hash_spec(settings_terms(a)) != property_hash_spec(settings_terms(SettingsBits { leader_length: v, ..a })),
{
    let b = SettingsBits { leader_length: v, ..a };
    assert(setting_number(a, 83) != setting_number(b, 83));
    assert forall|j: int| 0 <= j < SETTING_COUNT && j != 83 implies setting_number(a, j) == setting_number(b, j) by {}
    assert(differ_in_one(a, b));
    lemma_settings_change_detected(a, b);
}

/// Changing only `leader_taper` (its bit pattern) changes the settings hash.
pub proof fn lemma_edit_leader_taper(a: SettingsBits, v: u32)
    requires
        v != a.leader_taper,
    ensures
        property_hash_spec(settings_terms(a)) != property_hash_spec(settings_terms(SettingsBits { leader_taper: v, ..a })),
{
    let b = SettingsBits { leader_taper: v, ..a };
    assert(setting_number(a, 84) != setting_number(b, 84));
    assert forall|j: int| 0 <= j < SETTING_COUNT && j != 84 implies setting_number(a, j) == setting_number(b, j) by {}
    assert(differ_in_one(a, b));
    lemma_settings_change_detected(a, b);
}

/// Changing only `leader_has_branches` (switching it) changes the settings hash.
pub proof fn lemma_edit_leader_has_branches(a: SettingsBits, v: bool)
    requires
        v != a.leader_has_branches,
    ensures
        property_hash_spec(settings_terms(a)) != property_hash_spec(settings_terms(SettingsBits { leader_has_branches: v, ..a })),
{
    let b = SettingsBits { leader_has_branches: v, ..a };
    assert(setting_number(a, 85) == if a.leader_has_branches { 1int } else { 0int });
    assert(setting_number(b, 85) == if v { 1int } else { 0int });
    assert(setting_number(a, 85) != setting_number(b, 85));
    assert forall|j: int| 0 <= j < SETTING_COUNT && j != 85 implies setting_number(a, j) == setting_number(b, j) by {}
    assert(differ_in_one(a, b));
    lemma_settings_change_detected(a, b);
}

/// Changing only `branch_collar_enabled` (switching it) changes the settings hash.
pub proof fn lemma_edit_branch_collar_enabled(a: SettingsBits, v: bool)
    requires
        v != a.branch_collar_enabled,
    ensures
        property_hash_spec(settings_terms(a)) != property_hash_spec(settings_terms(SettingsBits { branch_collar_enabled: v, ..a })),
{
    let b = SettingsBits { branch_collar_enabled: v, ..a };
    assert(setting_number(a, 86) == if a.branch_collar_enabled { 1int } else { 0int });
    assert(setting_number(b, 86) == if v { 1int } else { 0int });
    assert(setting_number(a, 86) != setting_number(b, 86));
    assert forall|j: int| 0 <= j < SETTING_COUNT && j != 86 implies setting_number(a, j) == setting_number(b, j) by {}
    assert(differ_in_one(a, b));
    lemma_settings_change_detected(a, b);
}

/// Changing only `branch_collar_length` (its bit pattern) changes the settings hash.
pub proof fn lemma_edit_branch_collar_length(a: SettingsBits, v: u32)
    requires
        v != a.branch_collar_length,
    ensures
        property_hash_spec(settings_terms(a)) != property_hash_spec(settings_terms(SettingsBits { branch_collar_length: v, ..a })),
{
    let b = SettingsBits { branch_collar_length: v, ..a };
    assert(setting_number(a, 87) != setting_number(b, 87));
    assert forall|j: int| 0 <= j < SETTING_COUNT && j != 87 implies setting_number(a, j) == setting_number(b, j) by {}
    assert(differ_in_one(a, b));
    lemma_settings_change_detected(a, b);
}

/// Changing only `preview_branch_limit` (its value) changes the settings hash.
pub proof fn lemma_edit_preview_branch_limit(a: SettingsBits, v: i32)
    requires
        v != a.preview_branch_limit,
    ensures
        property_hash_spec(settings_terms(a)) != property_hash_spec(settings_terms(SettingsBits { preview_branch_limit: v, ..a })),
{
    let b = SettingsBits { preview_branch_limit: v, ..a };
    assert(setting_number(a, 88) != setting_number(b, 88));
    assert forall|j: int| 0 <= j < SETTING_COUNT && j != 88 implies setting_number(a, j) == setting_number(b, j) by {}
    assert(differ_in_one(a, b));
    lemma_settings_change_detected(a, b);
}

/// Changing only `preview_recursion_depth` (its value) changes the settings hash.
pub proof fn lemma_edit_preview_recursion_depth(a: SettingsBits, v: i32)
    requires
        v != a.preview_recursion_depth,
    ensures
        property_hash_spec(settings_terms(a)) != property_hash_spec(settings_terms(SettingsBits { preview_recursion_depth: v, ..a })),
{
    let b = SettingsBits { preview_recursion_depth: v, ..a };
    assert(setting_number(a, 89) != setting_number(b, 89));
    assert forall|j: int| 0 <= j < SETTING_COUNT && j != 89 implies setting_number(a, j) == setting_number(b, j) by {}
    assert(differ_in_one(a, b));
    lemma_settings_change_detected(a, b);
}

/// Changing only `growth_enabled` (switching it) changes the settings hash.
pub proof fn lemma_edit_growth_enabled(a: SettingsBits, v: bool)
    requires
        v != a.growth_enabled,
    ensures
        property_hash_spec(settings_terms(a)) != property_hash_spec(settings_terms(SettingsBits { growth_enabled: v, ..a })),
{
    let b = SettingsBits { growth_enabled: v, ..a };
    assert(setting_number(a, 90) == if a.growth_enabled { 1int } else { 0int });
    assert(setting_number(b, 90) == if v { 1int } else { 0int });
    assert(setting_number(a, 90) != setting_number(b, 90));
    assert forall|j: int| 0 <= j < SETTING_COUNT && j != 90 implies setting_number(a, j) == setting_number(b, j) by {}
    assert(differ_in_one(a, b));
    lemma_settings_change_detected(a, b);
}

/// Changing only `growth_preset` (its choice) changes the settings hash.
pub proof fn lemma_edit_growth_preset(a: SettingsBits, v: u32)
    requires
        v != a.growth_preset,
    ensures
        property_hash_spec(settings_terms(a)) != property_hash_spec(settings_terms(SettingsBits { growth_preset: v, ..a })),
{
    let b = SettingsBits { growth_preset: v, ..a };
    assert(setting_number(a, 91) != setting_number(b, 91));
    assert forall|j: int| 0 <= j < SETTING_COUNT && j != 91 implies setting_number(a, j) == setting_number(b, j) by {}
    assert(differ_in_one(a, b));
    lemma_settings_change_detected(a, b);
}

/// Changing only `growth_iterations` (its value) changes the settings hash.
pub proof fn lemma_edit_growth_iterations(a: SettingsBits, v: i32)
    requires
        v != a.growth_iterations,
    ensures
        property_hash_spec(settings_terms(a)) != property_hash_spec(settings_terms(SettingsBits { growth_iterations: v, ..a })),
{
    let b = SettingsBits { growth_iterations: v, ..a };
    assert(setting_number(a, 92) != setting_number(b, 92));
    assert forall|j: int| 0 <= j < SETTING_COUNT && j != 92 implies setting_number(a, j) == setting_number(b, j) by {}
    assert(differ_in_one(a, b));
    lemma_settings_change_detected(a, b);
}

/// Changing only `preview_iteration` (its value) changes the settings hash.
pub proof fn lemma_edit_preview_iteration(a: SettingsBits, v: i32)
    requires
        v != a.preview_iteration,
    ensures
        property_hash_spec(settings_terms(a)) != property_hash_spec(settings_terms(SettingsBits { preview_iteration: v, ..a })),
{
    let b = SettingsBits { preview_iteration: v, ..a };
    assert(setting_number(a, 93) != setting_number(b, 93));
    assert forall|j: int| 0 <= j < SETTING_COUNT && j != 93 implies setting_number(a, j) == setting_number(b, j) by {}
    assert(differ_in_one(a, b));
    lemma_settings_change_detected(a, b);
}

/// Changing only `grow_threshold` (its bit pattern) changes the settings hash.
pub proof fn lemma_edit_grow_threshold(a: SettingsBits, v: u32)
    requires
        v != a.grow_threshold,
    ensures
        property_hash_spec(settings_terms(a)) != property_hash_spec(settings_terms(SettingsBits { grow_threshold: v, ..a })),
{
    let b = SettingsBits { grow_threshold: v, ..a };
    assert(setting_number(a, 94) != setting_number(b, 94));
    assert forall|j: int| 0 <= j < SETTING_COUNT && j != 94 implies setting_number(a, j) == setting_number(b, j) by {}
    assert(differ_in_one(a, b));
    lemma_settings_change_detected(a, b);
}

/// Changing only `cut_threshold` (its bit pattern) changes the settings hash.
pub proof fn lemma_edit_cut_threshold(a: SettingsBits, v: u32)
    requires
        v != a.cut_threshold,
    ensures
        property_hash_spec(settings_terms(a)) != property_hash_spec(settings_terms(SettingsBits { cut_threshold: v, ..a })),
{
    let b = SettingsBits { cut_threshold: v, ..a };
    assert(setting_number(a, 95) != setting_number(b, 95));
    assert forall|j: int| 0 <= j < SETTING_COUNT && j != 95 implies setting_number(a, j) == setting_number(b, j) by {}
    assert(differ_in_one(a, b));
    lemma_settings_change_detected(a, b);
}

/// Changing only `split_threshold` (its bit pattern) changes the settings hash.
pub proof fn lemma_edit_split_threshold(a: SettingsBits, v: u32)
    requires
        v != a.split_threshold,
    ensures
        property_hash_spec(settings_terms(a)) != property_hash_spec(settings_terms(SettingsBits { split_threshold: v, ..a })),
{
    let b = SettingsBits { split_threshold: v, ..a };
    assert(setting_number(a, 96) != setting_number(b, 96));
    assert forall|j: int| 0 <= j < SETTING_COUNT && j != 96 implies setting_number(a, j) == setting_number(b, j) by {}
    assert(differ_in_one(a, b));
    lemma_settings_change_detected(a, b);
}

/// Changing only `lateral_enabled` (switching it) changes the settings hash.
pub proof fn lemma_edit_lateral_enabled(a: SettingsBits, v: bool)
    requires
        v != a.lateral_enabled,
    ensures
        property_hash_spec(settings_terms(a)) != property_hash_spec(settings_terms(SettingsBits { lateral_enabled: v, ..a })),
{
    let b = SettingsBits { lateral_enabled: v, ..a };
    assert(setting_number(a, 97) == if a.lateral_enabled { 1int } else { 0int });
    assert(setting_number(b, 97) == if v { 1int } else { 0int });
    assert(setting_number(a, 97) != setting_number(b, 97));
    assert forall|j: int| 0 <= j < SETTING_COUNT && j != 97 implies setting_number(a, j) == setting_number(b, j) by {}
    assert(differ_in_one(a, b));
    lemma_settings_change_detected(a, b);
}

/// Changing only `lateral_start` (its bit pattern) changes the settings hash.
pub proof fn lemma_edit_lateral_start(a: SettingsBits, v: u32)
    requires
        v != a.lateral_start,
    ensures
        property_hash_spec(settings_terms(a)) != property_hash_spec(settings_terms(SettingsBits { lateral_start: v, ..a })),
{
    let b = SettingsBits { lateral_start: v, ..a };
    assert(setting_number(a, 98) != setting_number(b, 98));
    assert forall|j: int| 0 <= j < SETTING_COUNT && j != 98 implies setting_number(a, j) == setting_number(b, j) by {}
    assert(differ_in_one(a, b));
    lemma_settings_change_detected(a, b);
}

/// Changing only `lateral_end` (its bit pattern) changes the settings hash.
pub proof fn lemma_edit_lateral_end(a: SettingsBits, v: u32)
    requires
        v != a.lateral_end,
    ensures
        property_hash_spec(settings_terms(a)) != property_hash_spec(settings_terms(SettingsBits { lateral_end: v, ..a })),
{
    let b = SettingsBits { lateral_end: v, ..a };
    assert(setting_number(a, 99) != setting_number(b, 99));
    assert forall|j: int| 0 <= j < SETTING_COUNT && j != 99 implies setting_number(a, j) == setting_number(b, j) by {}
    assert(differ_in_one(a, b));
    lemma_settings_change_detected(a, b);
}

/// Changing only `lateral_density` (its bit pattern) changes the settings hash.
pub proof fn lemma_edit_lateral_density(a: SettingsBits, v: u32)
    requires
        v != a.lateral_density,
    ensures
        property_hash_spec(settings_terms(a)) != property_hash_spec(settings_terms(SettingsBits { lateral_density: v, ..a })),
{
    let b = SettingsBits { lateral_density: v, ..a };
    assert(setting_number(a, 100) != setting_number(b, 100));
    assert forall|j: int| 0 <= j < SETTING_COUNT && j != 100 implies setting_number(a, j) == setting_number(b, j) by {}
    assert(differ_in_one(a, b));
    lemma_settings_change_detected(a, b);
}

/// Changing only `lateral_activation` (its bit pattern) changes the settings hash.
pub proof fn lemma_edit_lateral_activation(a: SettingsBits, v: u32)
    requires
        v != a.lateral_activation,
    ensures
        property_hash_spec(settings_terms(a)) != property_hash_spec(settings_terms(SettingsBits { lateral_activation: v, ..a })),
{
    let b = SettingsBits { lateral_activation: v, ..a };
    assert(setting_number(a, 101) != setting_number(b, 101));
    assert forall|j: int| 0 <= j < SETTING_COUNT && j != 101 implies setting_number(a, j) == setting_number(b, j) by {}
    assert(differ_in_one(a, b));
    lemma_settings_change_detected(a, b);
}

/// Changing only `lateral_angle` (its bit pattern) changes the settings hash.
pub proof fn lemma_edit_lateral_angle(a: SettingsBits, v: u32)
    requires
        v != a.lateral_angle,
    ensures
        property_hash_spec(settings_terms(a)) != property_hash_spec(settings_terms(SettingsBits { lateral_angle: v, ..a })),
{
    let b = SettingsBits { lateral_angle: v, ..a };
    assert(setting_number(a, 102) != setting_number(b, 102));
    assert forall|j: int| 0 <= j < SETTING_COUNT && j != 102 implies setting_number(a, j) == setting_number(b, j) by {}
    assert(differ_in_one(a, b));
    lemma_settings_change_detected(a, b);
}

/// Changing only `growth_gravitropism` (its bit pattern) changes the settings hash.
pub proof fn lemma_edit_growth_gravitropism(a: SettingsBits, v: u32)
    requires
        v != a.growth_gravitropism,
    ensures
        property_hash_spec(settings_terms(a)) != property_hash_spec(settings_terms(SettingsBits { growth_gravitropism: v, ..a })),
{
    let b = SettingsBits { growth_gravitropism: v, ..a };
    assert(setting_number(a, 103) != setting_number(b, 103));
    assert forall|j: int| 0 <= j < SETTING_COUNT && j != 103 implies setting_number(a, j) == setting_number(b, j) by {}
    assert(differ_in_one(a, b));
    lemma_settings_change_detected(a, b);
}

/// Changing only `growth_randomness` (its bit pattern) changes the settings hash.
pub proof fn lemma_edit_growth_randomness(a: SettingsBits, v: u32)
    requires
        v != a.growth_randomness,
    ensures
        property_hash_spec(settings_terms(a)) != property_hash_spec(settings_terms(SettingsBits { growth_randomness: v, ..a })),
{
    let b = SettingsBits { growth_randomness: v, ..a };
    assert(setting_number(a, 104) != setting_number(b, 104));
    assert forall|j: int| 0 <= j < SETTING_COUNT && j != 104 implies setting_number(a, j) == setting_number(b, j) by {}
    assert(differ_in_one(a, b));
    lemma_settings_change_detected(a, b);
}

/// Changing only `flowering_enabled` (switching it) changes the settings hash.
pub proof fn lemma_edit_flowering_enabled(a: SettingsBits, v: bool)
    requires
        v != a.flowering_enabled,
    ensures
        property_hash_spec(settings_terms(a)) != property_hash_spec(settings_terms(SettingsBits { flowering_enabled: v, ..a })),
{
    let b = SettingsBits { flowering_enabled: v, ..a };
    assert(setting_number(a, 105) == if a.flowering_enabled { 1int } else { 0int });
    assert(setting_number(b, 105) == if v { 1int } else { 0int });
    assert(setting_number(a, 105) != setting_number(b, 105));
    assert forall|j: int| 0 <= j < SETTING_COUNT && j != 105 implies setting_number(a, j) == setting_number(b, j) by {}
    assert(differ_in_one(a, b));
    lemma_settings_change_detected(a, b);
}

/// Changing only `flower_threshold` (its bit pattern) changes the settings hash.
pub proof fn lemma_edit_flower_threshold(a: SettingsBits, v: u32)
    requires
        v != a.flower_threshold,
    ensures
        property_hash_spec(settings_terms(a)) != property_hash_spec(settings_terms(SettingsBits { flower_threshold: v, ..a })),
{
    let b = SettingsBits { flower_threshold: v, ..a };
    assert(setting_number(a, 106) != setting_number(b, 106));
    assert forall|j: int| 0 <= j < SETTING_COUNT && j != 106 implies setting_number(a, j) == setting_number(b, j) by {}
    assert(differ_in_one(a, b));
    lemma_settings_change_detected(a, b);
}

/// Changing only `dynamic_cut_threshold` (switching it) changes the settings hash.
pub proof fn lemma_edit_dynamic_cut_threshold(a: SettingsBits, v: bool)
    requires
        v != a.dynamic_cut_threshold,
    ensures
        property_hash_spec(settings_terms(a)) != property_hash_spec(settings_terms(SettingsBits { dynamic_cut_threshold: v, ..a })),
{
    let b = SettingsBits { dynamic_cut_threshold: v, ..a };
    assert(setting_number(a, 107) == if a.dynamic_cut_threshold { 1int } else { 0int });
    assert(setting_number(b, 107) == if v { 1int } else { 0int });
    assert(setting_number(a, 107) != setting_number(b, 107));
    assert forall|j: int| 0 <= j < SETTING_COUNT && j != 107 implies setting_number(a, j) == setting_number(b, j) by {}
    assert(differ_in_one(a, b));
    lemma_settings_change_detected(a, b);
}

/// Changing only `growth_extension_taper` (its bit pattern) changes the settings hash.
pub proof fn lemma_edit_growth_extension_taper(a: SettingsBits, v: u32)
    requires
        v != a.growth_extension_taper,
    ensures
        property_hash_spec(settings_terms(a)) != property_hash_spec(settings_terms(SettingsBits { growth_extension_taper: v, ..a })),
{
    let b = SettingsBits { growth_extension_taper: v, ..a };
    assert(setting_number(a, 108) != setting_number(b, 108));
    assert forall|j: int| 0 <= j < SETTING_COUNT && j != 108 implies setting_number(a, j) == setting_number(b, j) by {}
    assert(differ_in_one(a, b));
    lemma_settings_change_detected(a, b);
}

/// Changing only `growth_split_taper` (its bit pattern) changes the settings hash.
pub proof fn lemma_edit_growth_split_taper(a: SettingsBits, v: u32)
    requires
        v != a.growth_split_taper,
    ensures
        property_hash_spec(settings_terms(a)) != property_hash_spec(settings_terms(SettingsBits { growth_split_taper: v, ..a })),
{
    let b = SettingsBits { growth_split_taper: v, ..a };
    assert(setting_number(a, 109) != setting_number(b, 109));
    assert forall|j: int| 0 <= j < SETTING_COUNT && j != 109 implies setting_number(a, j) == setting_number(b, j) by {}
    assert(differ_in_one(a, b));
    lemma_settings_change_detected(a, b);
}

/// Changing only `secondary_growth` (switching it) changes the settings hash.
pub proof fn lemma_edit_secondary_growth(a: SettingsBits, v: bool)
    requires
        v != a.secondary_growth,
    ensures
        property_hash_spec(settings_terms(a)) != property_hash_spec(settings_terms(SettingsBits { secondary_growth: v, ..a })),
{
    let b = SettingsBits { secondary_growth: v, ..a };
    assert(setting_number(a, 110) == if a.secondary_growth { 1int } else { 0int });
    assert(setting_number(b, 110) == if v { 1int } else { 0int });
    assert(setting_number(a, 110) != setting_number(b, 110));
    assert forall|j: int| 0 <= j < SETTING_COUNT && j != 110 implies setting_number(a, j) == setting_number(b, j) by {}
    assert(differ_in_one(a, b));
    lemma_settings_change_detected(a, b);
}

/// Changing only `competitive_vigor` (switching it) changes the settings hash.
pub proof fn lemma_edit_competitive_vigor(a: SettingsBits, v: bool)
    requires
        v != a.competitive_vigor,
    ensures
        property_hash_spec(settings_terms(a)) != property_hash_spec(settings_terms(SettingsBits { competitive_vigor: v, ..a })),
{
    let b = SettingsBits { competitive_vigor: v, ..a };
    assert(setting_number(a, 111) == if a.competitive_vigor { 1int } else { 0int });
    assert(setting_number(b, 111) == if v { 1int } else { 0int });
    assert(setting_number(a, 111) != setting_number(b, 111));
    assert forall|j: int| 0 <= j < SETTING_COUNT && j != 111 implies setting_number(a, j) == setting_number(b, j) by {}
    assert(differ_in_one(a, b));
    lemma_settings_change_detected(a, b);
}

/// Changing only `growth_trunk_resolution` (its bit pattern) changes the settings hash.
pub proof fn lemma_edit_growth_trunk_resolution(a: SettingsBits, v: u32)
    requires
        v != a.growth_trunk_resolution,
    ensures
        property_hash_spec(settings_terms(a)) != property_hash_spec(settings_terms(SettingsBits { growth_trunk_resolution: v, ..a })),
{
    let b = SettingsBits { growth_trunk_resolution: v, ..a };
    assert(setting_number(a, 112) != setting_number(b, 112));
    assert forall|j: int| 0 <= j < SETTING_COUNT && j != 112 implies setting_number(a, j) == setting_number(b, j) by {}
    assert(differ_in_one(a, b));
    lemma_settings_change_detected(a, b);
}

/// Changing only `growth_trunk_up_attraction` (its bit pattern) changes the settings hash.
pub proof fn lemma_edit_growth_trunk_up_attraction(a: SettingsBits, v: u32)
    requires
        v != a.growth_trunk_up_attraction,
    ensures
        property_hash_spec(settings_terms(a)) != property_hash_spec(settings_terms(SettingsBits { growth_trunk_up_attraction: v, ..a })),
{
    let b = SettingsBits { growth_trunk_up_attraction: v, ..a };
    assert(setting_number(a, 113) != setting_number(b, 113));
    assert forall|j: int| 0 <= j < SETTING_COUNT && j != 113 implies setting_number(a, j) == setting_number(b, j) by {}
    assert(differ_in_one(a, b));
    lemma_settings_change_detected(a, b);
}

/// Changing only `growth_split_angle` (its bit pattern) changes the settings hash.
pub proof fn lemma_edit_growth_split_angle(a: SettingsBits, v: u32)
    requires
        v != a.growth_split_angle,
    ensures
        property_hash_spec(settings_terms(a)) != property_hash_spec(settings_terms(SettingsBits { growth_split_angle: v, ..a })),
{
    let b = SettingsBits { growth_split_angle: v, ..a };
    assert(setting_number(a, 114) != setting_number(b, 114));
    assert forall|j: int| 0 <= j < SETTING_COUNT && j != 114 implies setting_number(a, j) == setting_number(b, j) by {}
    assert(differ_in_one(a, b));
    lemma_settings_change_detected(a, b);
}

/// Changing only `growth_phyllotaxis_angle` (its bit pattern) changes the settings hash.
pub proof fn lemma_edit_growth_phyllotaxis_angle(a: SettingsBits, v: u32)
    requires
        v != a.growth_phyllotaxis_angle,
    ensures
        property_hash_spec(settings_terms(a)) != property_hash_spec(settings_terms(SettingsBits { growth_phyllotaxis_angle: v, ..a })),
{
    let b = SettingsBits { growth_phyllotaxis_angle: v, ..a };
    assert(setting_number(a, 115) != setting_number(b, 115));
    assert forall|j: int| 0 <= j < SETTING_COUNT && j != 115 implies setting_number(a, j) == setting_number(b, j) by {}
    assert(differ_in_one(a, b));
    lemma_settings_change_detected(a, b);
}

/// Changing only `manifold_mesh_enabled` (switching it) changes the settings hash.
pub proof fn lemma_edit_manifold_mesh_enabled(a: SettingsBits, v: bool)
    requires
        v != a.manifold_mesh_enabled,
    ensures
        property_hash_spec(settings_terms(a)) != property_hash_spec(settings_terms(SettingsBits { manifold_mesh_enabled: v, ..a })),
{
    let b = SettingsBits { manifold_mesh_enabled: v, ..a };
    assert(setting_number(a, 116) == if a.manifold_mesh_enabled { 1int } else { 0int });
    assert(setting_number(b, 116) == if v { 1int } else { 0int });
    assert(setting_number(a, 116) != setting_number(b, 116));
    assert forall|j: int| 0 <= j < SETTING_COUNT && j != 116 implies setting_number(a, j) == setting_number(b, j) by {}
    assert(differ_in_one(a, b));
    lemma_settings_change_detected(a, b);
}

/// Changing only `pivot_painter_enabled` (switching it) changes the settings hash.
pub proof fn lemma_edit_pivot_painter_enabled(a: SettingsBits, v: bool)
    requires
        v != a.pivot_painter_enabled,
    ensures
        property_hash_spec(settings_terms(a)) != property_hash_spec(settings_terms(SettingsBits { pivot_painter_enabled: v, ..a })),
{
    let b = SettingsBits { pivot_painter_enabled: v, ..a };
    assert(setting_number(a, 117) == if a.pivot_painter_enabled { 1int } else { 0int });
    assert(setting_number(b, 117) == if v { 1int } else { 0int });
    assert(setting_number(a, 117) != setting_number(b, 117));
    assert forall|j: int| 0 <= j < SETTING_COUNT && j != 117 implies setting_number(a, j) == setting_number(b, j) by {}
    assert(differ_in_one(a, b));
    lemma_settings_change_detected(a, b);
}

/// Changing only `stem_count` (its value) changes the settings hash.
pub proof fn lemma_edit_stem_count(a: SettingsBits, v: i32)
    requires
        v != a.stem_count,
    ensures
        property_hash_spec(settings_terms(a)) != property_hash_spec(settings_terms(SettingsBits { stem_count: v, ..a })),
{
    let b = SettingsBits { stem_count: v, ..a };
    assert(setting_number(a, 118) != setting_number(b, 118));
    assert forall|j: int| 0 <= j < SETTING_COUNT && j != 118 implies setting_number(a, j) == setting_number(b, j) by {}
    assert(differ_in_one(a, b));
    lemma_settings_change_detected(a, b);
}

/// Changing only `stem_spread` (its bit pattern) changes the settings hash.
pub proof fn lemma_edit_stem_spread(a: SettingsBits, v: u32)
    requires
        v != a.stem_spread,
    ensures
        property_hash_spec(settings_terms(a)) != property_hash_spec(settings_terms(SettingsBits { stem_spread: v, ..a })),
{
    let b = SettingsBits { stem_spread: v, ..a };
    assert(setting_number(a, 119) != setting_number(b, 119));
    assert forall|j: int| 0 <= j < SETTING_COUNT && j != 119 implies setting_number(a, j) == setting_number(b, j) by {}
    assert(differ_in_one(a, b));
    lemma_settings_change_detected(a, b);
}

/// Changing only `floor_avoidance` (switching it) changes the settings hash.
pub proof fn lemma_edit_floor_avoidance(a: SettingsBits, v: bool)
    requires
        v != a.floor_avoidance,
    ensures
        property_hash_spec(settings_terms(a)) != property_hash_spec(settings_terms(SettingsBits { floor_avoidance: v, ..a })),
{
    let b = SettingsBits { floor_avoidance: v, ..a };
    assert(setting_number(a, 120) == if a.floor_avoidance { 1int } else { 0int });
    assert(setting_number(b, 120) == if v { 1int } else { 0int });
    assert(setting_number(a, 120) != setting_number(b, 120));
    assert forall|j: int| 0 <= j < SETTING_COUNT && j != 120 implies setting_number(a, j) == setting_number(b, j) by {}
    assert(differ_in_one(a, b));
    lemma_settings_change_detected(a, b);
}

/// Changing only `floor_level` (its bit pattern) changes the settings hash.
pub proof fn lemma_edit_floor_level(a: SettingsBits, v: u32)
    requires
        v != a.floor_level,
    ensures
        property_hash_spec(settings_terms(a)) != property_hash_spec(settings_terms(SettingsBits { floor_level: v, ..a })),
{
    let b = SettingsBits { floor_level: v, ..a };
    assert(setting_number(a, 121) != setting_number(b, 121));
    assert forall|j: int| 0 <= j < SETTING_COUNT && j != 121 implies setting_number(a, j) == setting_number(b, j) by {}
    assert(differ_in_one(a, b));
    lemma_settings_change_detected(a, b);
}

/// Changing only `smooth_enabled` (switching it) changes the settings hash.
pub proof fn lemma_edit_smooth_enabled(a: SettingsBits, v: bool)
    requires
        v != a.smooth_enabled,
    ensures
        property_hash_spec(settings_terms(a)) != property_hash_spec(settings_terms(SettingsBits { smooth_enabled: v, ..a })),
{
    let b = SettingsBits { smooth_enabled: v, ..a };
    assert(setting_number(a, 122) == if a.smooth_enabled { 1int } else { 0int });
    assert(setting_number(b, 122) == if v { 1int } else { 0int });
    assert(setting_number(a, 122) != setting_number(b, 122));
    assert forall|j: int| 0 <= j < SETTING_COUNT && j != 122 implies setting_number(a, j) == setting_number(b, j) by {}
    assert(differ_in_one(a, b));
    lemma_settings_change_detected(a, b);
}

/// Changing only `smooth_iterations` (its value) changes the settings hash.
pub proof fn lemma_edit_smooth_iterations(a: SettingsBits, v: i32)
    requires
        v != a.smooth_iterations,
    ensures
        property_hash_spec(settings_terms(a)) != property_hash_spec(settings_terms(SettingsBits { smooth_iterations: v, ..a })),
{
    let b = SettingsBits { smooth_iterations: v, ..a };
    assert(setting_number(a, 123) != setting_number(b, 123));
    assert forall|j: int| 0 <= j < SETTING_COUNT && j != 123 implies setting_number(a, j) == setting_number(b, j) by {}
    assert(differ_in_one(a, b));
    lemma_settings_change_detected(a, b);
}

/// Changing only `smooth_factor` (its bit pattern) changes the settings hash.
pub proof fn lemma_edit_smooth_factor(a: SettingsBits, v: u32)
    requires
        v != a.smooth_factor,
    ensures
        property_hash_spec(settings_terms(a)) != property_hash_spec(settings_terms(SettingsBits { smooth_factor: v, ..a })),
{
    let b = SettingsBits { smooth_factor: v, ..a };
    assert(setting_number(a, 124) != setting_number(b, 124));
    assert forall|j: int| 0 <= j < SETTING_COUNT && j != 124 implies setting_number(a, j) == setting_number(b, j) by {}
    assert(differ_in_one(a, b));
    lemma_settings_change_detected(a, b);
}

/// Changing only `adaptive_resolution` (switching it) changes the settings hash.
pub proof fn lemma_edit_adaptive_resolution(a: SettingsBits, v: bool)
    requires
        v != a.adaptive_resolution,
    ensures
        property_hash_spec(settings_terms(a)) != property_hash_spec(settings_terms(SettingsBits { adaptive_resolution: v, ..a })),
{
    let b = SettingsBits { adaptive_resolution: v, ..a };
    assert(setting_number(a, 125) == if a.adaptive_resolution { 1int } else { 0int });
    assert(setting_number(b, 125) == if v { 1int } else { 0int });
    assert(setting_number(a, 125) != setting_number(b, 125));
    assert forall|j: int| 0 <= j < SETTING_COUNT && j != 125 implies setting_number(a, j) == setting_number(b, j) by {}
    assert(differ_in_one(a, b));
    lemma_settings_change_detected(a, b);
}

/// Changing only `resolution_scale` (its bit pattern) changes the settings hash.
pub proof fn lemma_edit_resolution_scale(a: SettingsBits, v: u32)
    requires
        v != a.resolution_scale,
    ensures
        property_hash_spec(settings_terms(a)) != property_hash_spec(settings_terms(SettingsBits { resolution_scale: v, ..a })),
{
    let b = SettingsBits { resolution_scale: v, ..a };
    assert(setting_number(a, 126) != setting_number(b, 126));
    assert forall|j: int| 0 <= j < SETTING_COUNT && j != 126 implies setting_number(a, j) == setting_number(b, j) by {}
    assert(differ_in_one(a, b));
    lemma_settings_change_detected(a, b);
}

/// Changing only `min_radial_segments` (its value) changes the settings hash.
pub proof fn lemma_edit_min_radial_segments(a: SettingsBits, v: i32)
    requires
        v != a.min_radial_segments,
    ensures
        property_hash_spec(settings_terms(a)) != property_hash_spec(settings_terms(SettingsBits { min_radial_segments: v, ..a })),
{
    let b = SettingsBits { min_radial_segments: v, ..a };
    assert(setting_number(a, 127) != setting_number(b, 127));
    assert forall|j: int| 0 <= j < SETTING_COUNT && j != 127 implies setting_number(a, j) == setting_number(b, j) by {}
    assert(differ_in_one(a, b));
    lemma_settings_change_detected(a, b);
}

/// Changing only `max_radial_segments` (its value) changes the settings hash.
pub proof fn lemma_edit_max_radial_segments(a: SettingsBits, v: i32)
    requires
        v != a.max_radial_segments,
    ensures
        property_hash_spec(settings_terms(a)) != property_hash_spec(settings_terms(SettingsBits { max_radial_segments: v, ..a })),
{
    let b = SettingsBits { max_radial_segments: v, ..a };
    assert(setting_number(a, 128) != setting_number(b, 128));
    assert forall|j: int| 0 <= j < SETTING_COUNT && j != 128 implies setting_number(a, j) == setting_number(b, j) by {}
    assert(differ_in_one(a, b));
    lemma_settings_change_detected(a, b);
}

/// Changing only `length_resolution` (its bit pattern) changes the settings hash.
pub proof fn lemma_edit_length_resolution(a: SettingsBits, v: u32)
    requires
        v != a.length_resolution,
    ensures
        property_hash_spec(settings_terms(a)) != property_hash_spec(settings_terms(SettingsBits { length_resolution: v, ..a })),
{
    let b = SettingsBits { length_resolution: v, ..a };
    assert(setting_number(a, 129) != setting_number(b, 129));
    assert forall|j: int| 0 <= j < SETTING_COUNT && j != 129 implies setting_number(a, j) == setting_number(b, j) by {}
    assert(differ_in_one(a, b));
    lemma_settings_change_detected(a, b);
}

/// Changing only `pipe_radius_enabled` (switching it) changes the settings hash.
pub proof fn lemma_edit_pipe_radius_enabled(a: SettingsBits, v: bool)
    requires
        v != a.pipe_radius_enabled,
    ensures
        property_hash_spec(settings_terms(a)) != property_hash_spec(settings_terms(SettingsBits { pipe_radius_enabled: v, ..a })),
{
    let b = SettingsBits { pipe_radius_enabled: v, ..a };
    assert(setting_number(a, 130) == if a.pipe_radius_enabled { 1int } else { 0int });
    assert(setting_number(b, 130) == if v { 1int } else { 0int });
    assert(setting_number(a, 130) != setting_number(b, 130));
    assert forall|j: int| 0 <= j < SETTING_COUNT && j != 130 implies setting_number(a, j) == setting_number(b, j) by {}
    assert(differ_in_one(a, b));
    lemma_settings_change_detected(a, b);
}

/// Changing only `pipe_radius_exponent` (its bit pattern) changes the settings hash.
pub proof fn lemma_edit_pipe_radius_exponent(a: SettingsBits, v: u32)
    requires
        v != a.pipe_radius_exponent,
    ensures
        property_hash_spec(settings_terms(a)) != property_hash_spec(settings_terms(SettingsBits { pipe_radius_exponent: v, ..a })),
{
    let b = SettingsBits { pipe_radius_exponent: v, ..a };
    assert(setting_number(a, 131) != setting_number(b, 131));
    assert forall|j: int| 0 <= j < SETTING_COUNT && j != 131 implies setting_number(a, j) == setting_number(b, j) by {}
    assert(differ_in_one(a, b));
    lemma_settings_change_detected(a, b);
}

/// Changing only `pipe_radius_min` (its bit pattern) changes the settings hash.
pub proof fn lemma_edit_pipe_radius_min(a: SettingsBits, v: u32)
    requires
        v != a.pipe_radius_min,
    ensures
        property_hash_spec(settings_terms(a)) != property_hash_spec(settings_terms(SettingsBits { pipe_radius_min: v, ..a })),
{
    let b = SettingsBits { pipe_radius_min: v, ..a };
    assert(setting_number(a, 132) != setting_number(b, 132));
    assert forall|j: int| 0 <= j < SETTING_COUNT && j != 132 implies setting_number(a, j) == setting_number(b, j) by {}
    assert(differ_in_one(a, b));
    lemma_settings_change_detected(a, b);
}

/// Changing only `pipe_radius_constant_growth` (its bit pattern) changes the settings hash.
pub proof fn lemma_edit_pipe_radius_constant_growth(a: SettingsBits, v: u32)
    requires
        v != a.pipe_radius_constant_growth,
    ensures
        property_hash_spec(settings_terms(a)) != property_hash_spec(settings_terms(SettingsBits { pipe_radius_constant_growth: v, ..a })),
{
    let b = SettingsBits { pipe_radius_constant_growth: v, ..a };
    assert(setting_number(a, 133) != setting_number(b, 133));
    assert forall|j: int| 0 <= j < SETTING_COUNT && j != 133 implies setting_number(a, j) == setting_number(b, j) by {}
    assert(differ_in_one(a, b));
    lemma_settings_change_detected(a, b);
}

/// Changing only `bark_uv_scale_x` (its bit pattern) changes the settings hash.
pub proof fn lemma_edit_bark_uv_scale_x(a: SettingsBits, v: u32)
    requires
        v != a.bark_uv_scale_x,
    ensures
        property_hash_spec(settings_terms(a)) != property_hash_spec(settings_terms(SettingsBits { bark_uv_scale_x: v, ..a })),
{
    let b = SettingsBits { bark_uv_scale_x: v, ..a };
    assert(setting_number(a, 134) != setting_number(b, 134));
    assert forall|j: int| 0 <= j < SETTING_COUNT && j != 134 implies setting_number(a, j) == setting_number(b, j) by {}
    assert(differ_in_one(a, b));
    lemma_settings_change_detected(a, b);
}

/// Changing only `bark_uv_scale_y` (its bit pattern) changes the settings hash.
pub proof fn lemma_edit_bark_uv_scale_y(a: SettingsBits, v: u32)
    requires
        v != a.bark_uv_scale_y,
    ensures
        property_hash_spec(settings_terms(a)) != property_hash_spec(settings_terms(SettingsBits { bark_uv_scale_y: v, ..a })),
{
    let b = SettingsBits { bark_uv_scale_y: v, ..a };
    assert(setting_number(a, 135) != setting_number(b, 135));
    assert forall|j: int| 0 <= j < SETTING_COUNT && j != 135 implies setting_number(a, j) == setting_number(b, j) by {}
    assert(differ_in_one(a, b));
    lemma_settings_change_detected(a, b);
}

/// Changing only `bark_uv_scale_z` (its bit pattern) changes the settings hash.
pub proof fn lemma_edit_bark_uv_scale_z(a: SettingsBits, v: u32)
    requires
        v != a.bark_uv_scale_z,
    ensures
        property_hash_spec(settings_terms(a)) != property_hash_spec(settings_terms(SettingsBits { bark_uv_scale_z: v, ..a })),
{
    let b = SettingsBits { bark_uv_scale_z: v, ..a };
    assert(setting_number(a, 136) != setting_number(b, 136));
    assert forall|j: int| 0 <= j < SETTING_COUNT && j != 136 implies setting_number(a, j) == setting_number(b, j) by {}
    assert(differ_in_one(a, b));
    lemma_settings_change_detected(a, b);
}

/// Changing only `foliage_uv_scale_x` (its bit pattern) changes the settings hash.
pub proof fn lemma_edit_foliage_uv_scale_x(a: SettingsBits, v: u32)
    requires
        v != a.foliage_uv_scale_x,
    ensures
        property_hash_spec(settings_terms(a)) != property_hash_spec(settings_terms(SettingsBits { foliage_uv_scale_x: v, ..a })),
{
    let b = SettingsBits { foliage_uv_scale_x: v, ..a };
    assert(setting_number(a, 137) != setting_number(b, 137));
    assert forall|j: int| 0 <= j < SETTING_COUNT && j != 137 implies setting_number(a, j) == setting_number(b, j) by {}
    assert(differ_in_one(a, b));
    lemma_settings_change_detected(a, b);
}

/// Changing only `foliage_uv_scale_y` (its bit pattern) changes the settings hash.
pub proof fn lemma_edit_foliage_uv_scale_y(a: SettingsBits, v: u32)
    requires
        v != a.foliage_uv_scale_y,
    ensures
        property_hash_spec(settings_terms(a)) != property_hash_spec(settings_terms(SettingsBits { foliage_uv_scale_y: v, ..a })),
{
    let b = SettingsBits { foliage_uv_scale_y: v, ..a };
    assert(setting_number(a, 138) != setting_number(b, 138));
    assert forall|j: int| 0 <= j < SETTING_COUNT && j != 138 implies setting_number(a, j) == setting_number(b, j) by {}
    assert(differ_in_one(a, b));
    lemma_settings_change_detected(a, b);
}

/// Changing only `foliage_uv_scale_z` (its bit pattern) changes the settings hash.
pub proof fn lemma_edit_foliage_uv_scale_z(a: SettingsBits, v: u32)
    requires
        v != a.foliage_uv_scale_z,
    ensures
        property_hash_spec(settings_terms(a)) != property_hash_spec(settings_terms(SettingsBits { foliage_uv_scale_z: v, ..a })),
{
    let b = SettingsBits { foliage_uv_scale_z: v, ..a };
    assert(setting_number(a, 139) != setting_number(b, 139));
    assert forall|j: int| 0 <= j < SETTING_COUNT && j != 139 implies setting_number(a, j) == setting_number(b, j) by {}
    assert(differ_in_one(a, b));
    lemma_settings_change_detected(a, b);
}

/// Changing only `trunk_roughness` (its bit pattern) changes the settings hash.
pub proof fn lemma_edit_trunk_roughness(a: SettingsBits, v: u32)
    requires
        v != a.trunk_roughness,
    ensures
        property_hash_spec(settings_terms(a)) != property_hash_spec(settings_terms(SettingsBits { trunk_roughness: v, ..a })),
{
    let b = SettingsBits { trunk_roughness: v, ..a };
    assert(setting_number(a, 140) != setting_number(b, 140));
    assert forall|j: int| 0 <= j < SETTING_COUNT && j != 140 implies setting_number(a, j) == setting_number(b, j) by {}
    assert(differ_in_one(a, b));
    lemma_settings_change_detected(a, b);
}

/// Changing only `trunk_metallic` (its bit pattern) changes the settings hash.
pub proof fn lemma_edit_trunk_metallic(a: SettingsBits, v: u32)
    requires
        v != a.trunk_metallic,
    ensures
        property_hash_spec(settings_terms(a)) != property_hash_spec(settings_terms(SettingsBits { trunk_metallic: v, ..a })),
{
    let b = SettingsBits { trunk_metallic: v, ..a };
    assert(setting_number(a, 141) != setting_number(b, 141));
    assert forall|j: int| 0 <= j < SETTING_COUNT && j != 141 implies setting_number(a, j) == setting_number(b, j) by {}
    assert(differ_in_one(a, b));
    lemma_settings_change_detected(a, b);
}

/// Changing only `foliage_roughness` (its bit pattern) changes the settings hash.
pub proof fn lemma_edit_foliage_roughness(a: SettingsBits, v: u32)
    requires
        v != a.foliage_roughness,
    ensures
        property_hash_spec(settings_terms(a)) != property_hash_spec(settings_terms(SettingsBits { foliage_roughness: v, ..a })),
{
    let b = SettingsBits { foliage_roughness: v, ..a };
    assert(setting_number(a, 142) != setting_number(b, 142));
    assert forall|j: int| 0 <= j < SETTING_COUNT && j != 142 implies setting_number(a, j) == setting_number(b, j) by {}
    assert(differ_in_one(a, b));
    lemma_settings_change_detected(a, b);
}

/// Changing only `foliage_metallic` (its bit pattern) changes the settings hash.
pub proof fn lemma_edit_foliage_metallic(a: SettingsBits, v: u32)
    requires
        v != a.foliage_metallic,
    ensures
        property_hash_spec(settings_terms(a)) != property_hash_spec(settings_terms(SettingsBits { foliage_metallic: v, ..a })),
{
    let b = SettingsBits { foliage_metallic: v, ..a };
    assert(setting_number(a, 143) != setting_number(b, 143));
    assert forall|j: int| 0 <= j < SETTING_COUNT && j != 143 implies setting_number(a, j) == setting_number(b, j) by {}
    assert(differ_in_one(a, b));
    lemma_settings_change_detected(a, b);
}

/// Changing only `bark_texture` (its texture (set, cleared or replaced, ids non-zero)) changes the settings hash.
pub proof fn lemma_edit_bark_texture(a: SettingsBits, v: Option<u64>)
    requires
        v != a.bark_texture,
        a.bark_texture is Some ==> a.bark_texture->0 != 0,
        v is Some ==> v->0 != 0,
    ensures
        property_hash_spec(settings_terms(a)) != property_hash_spec(settings_terms(SettingsBits { bark_texture: v, ..a })),
{
    let b = SettingsBits { bark_texture: v, ..a };
    assert(setting_number(a, 144) != setting_number(b, 144));
    assert forall|j: int| 0 <= j < SETTING_COUNT && j != 144 implies setting_number(a, j) == setting_number(b, j) by {}
    assert(differ_in_one(a, b));
    lemma_settings_change_detected(a, b);
}

/// Changing only `bark_normal_map` (its texture (set, cleared or replaced, ids non-zero)) changes the settings hash.
pub proof fn lemma_edit_bark_normal_map(a: SettingsBits, v: Option<u64>)
    requires
        v != a.bark_normal_map,
        a.bark_normal_map is Some ==> a.bark_normal_map->0 != 0,
        v is Some ==> v->0 != 0,
    ensures
        property_hash_spec(settings_terms(a)) != property_hash_spec(settings_terms(SettingsBits { bark_normal_map: v, ..a })),
{
    let b = SettingsBits { bark_normal_map: v, ..a };
    assert(setting_number(a, 145) != setting_number(b, 145));
    assert forall|j: int| 0 <= j < SETTING_COUNT && j != 145 implies setting_number(a, j) == setting_number(b, j) by {}
    assert(differ_in_one(a, b));
    lemma_settings_change_detected(a, b);
}

/// Changing only `bark_roughness_map` (its texture (set, cleared or replaced, ids non-zero)) changes the settings hash.
pub proof fn lemma_edit_bark_roughness_map(a: SettingsBits, v: Option<u64>)
    requires
        v != a.bark_roughness_map,
        a.bark_roughness_map is Some ==> a.bark_roughness_map->0 != 0,
        v is Some ==> v->0 != 0,
    ensures
        property_hash_spec(settings_terms(a)) != property_hash_spec(settings_terms(SettingsBits { bark_roughness_map: v, ..a })),
{
    let b = SettingsBits { bark_roughness_map: v, ..a };
    assert(setting_number(a, 146) != setting_number(b, 146));
    assert forall|j: int| 0 <= j < SETTING_COUNT && j != 146 implies setting_number(a, j) == setting_number(b, j) by {}
    assert(differ_in_one(a, b));
    lemma_settings_change_detected(a, b);
}

/// Changing only `foliage_texture` (its texture (set, cleared or replaced, ids non-zero)) changes the settings hash.
pub proof fn lemma_edit_foliage_texture(a: SettingsBits, v: Option<u64>)
    requires
        v != a.foliage_texture,
        a.foliage_texture is Some ==> a.foliage_texture->0 != 0,
        v is Some ==> v->0 != 0,
    ensures
        property_hash_spec(settings_terms(a)) != property_hash_spec(settings_terms(SettingsBits { foliage_texture: v, ..a })),
{
    let b = SettingsBits { foliage_texture: v, ..a };
    assert(setting_number(a, 147) != setting_number(b, 147));
    assert forall|j: int| 0 <= j < SETTING_COUNT && j != 147 implies setting_number(a, j) == setting_number(b, j) by {}
    assert(differ_in_one(a, b));
    lemma_settings_change_detected(a, b);
}

/// Changing only `foliage_normal_map` (its texture (set, cleared or replaced, ids non-zero)) changes the settings hash.
pub proof fn lemma_edit_foliage_normal_map(a: SettingsBits, v: Option<u64>)
    requires
        v != a.foliage_normal_map,
        a.foliage_normal_map is Some ==> a.foliage_normal_map->0 != 0,
        v is Some ==> v->0 != 0,
    ensures
        property_hash_spec(settings_terms(a)) != property_hash_spec(settings_terms(SettingsBits { foliage_normal_map: v, ..a })),
{
    let b = SettingsBits { foliage_normal_map: v, ..a };
    assert(setting_number(a, 148) != setting_number(b, 148));
    assert forall|j: int| 0 <= j < SETTING_COUNT && j != 148 implies setting_number(a, j) == setting_number(b, j) by {}
    assert(differ_in_one(a, b));
    lemma_settings_change_detected(a, b);
}

} // verus!
