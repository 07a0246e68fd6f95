use tile_pyramid::zoom::TileProcessor;
use tile_pyramid::zoom::plan_levels;
use tile_pyramid::zoom::pow2_u32;
use tile_pyramid::zoom::scaled_dimensions;
use tile_pyramid::zoom::total_tile_count;

#[test]
fn level_count_square_image() {
    let p = TileProcessor::new(256);
    assert_eq!(p.get_max_zoom_levels(512, 512), 2);
}

#[test]
fn level_count_tiny_image() {
    let p = TileProcessor::new(256);
    assert_eq!(p.get_max_zoom_levels(1, 1), 1);
}

#[test]
fn level_count_exact_tile() {
    let p = TileProcessor::new(256);
    assert_eq!(p.get_max_zoom_levels(256, 256), 1);
}

#[test]
fn level_count_just_over_one_tile() {
    let p = TileProcessor::new(256);
    assert_eq!(p.get_max_zoom_levels(257, 100), 2);
}

#[test]
fn level_count_wide_image() {
    let p = TileProcessor::new(256);
    // max dimension 513 needs three levels: 256 < 512 < 513 <= 1024.
    assert_eq!(p.get_max_zoom_levels(513, 1), 3);
}

#[test]
fn level_count_boundary_is_smallest() {
    // The chosen count's finest level reaches the longer side, and no
    // smaller exponent does.
    let p = TileProcessor::new(100);
    for max_dim in [1u32, 99, 100, 101, 399, 400, 401, 1600, 1601] {
        let levels = p.get_max_zoom_levels(max_dim, 1);
        assert!(levels >= 1);
        let finest = pow2_u32(levels - 1) as u64 * 100;
        assert!(finest >= max_dim as u64);
        if levels >= 2 {
            let coarser = pow2_u32(levels - 2) as u64 * 100;
            assert!(coarser < max_dim as u64);
        }
    }
}

#[test]
fn total_tiles_three_levels() {
    assert_eq!(total_tile_count(3), 21);
}

#[test]
fn total_tiles_two_levels() {
    assert_eq!(total_tile_count(2), 5);
}

#[test]
fn total_tiles_one_level() {
    assert_eq!(total_tile_count(1), 1);
}

#[test]
fn total_tiles_sum_of_powers_of_four() {
    let mut expected: u32 = 0;
    let mut power: u32 = 1;
    for levels in 0..=16u32 {
        assert_eq!(total_tile_count(levels), expected);
        if levels < 16 {
            expected += power;
            power = power.wrapping_mul(4);
        }
    }
}

#[test]
fn scaled_dimensions_square() {
    // 512x512 at tile size 256: level 0 is 256x256, level 1 full size.
    assert_eq!(scaled_dimensions(0, 512, 512, 256), (256, 256));
    assert_eq!(scaled_dimensions(1, 512, 512, 256), (512, 512));
}

#[test]
fn scaled_dimensions_rectangular() {
    // 1000x500 at tile size 256: level 0 scales by 256/1000.
    assert_eq!(scaled_dimensions(0, 1000, 500, 256), (256, 128));
    // level 1 scales by 512/1000; 500 * 512 / 1000 = 256.
    assert_eq!(scaled_dimensions(1, 1000, 500, 256), (512, 256));
}

#[test]
fn scaled_dimensions_floor_truncates() {
    // 3x2 at tile size 2: level 0 scale is 2/3; 3*2/3 = 2, 2*2/3 = 1 (floored).
    assert_eq!(scaled_dimensions(0, 3, 2, 2), (2, 1));
}

#[test]
fn scaled_dimension_can_collapse_to_zero() {
    // A very thin image can scale to a zero-height rendition at the
    // coarsest level; padding then fills the whole tile.
    assert_eq!(scaled_dimensions(0, 10000, 1, 256), (256, 0));
}

#[test]
fn plan_accepts_an_ordinary_run() {
    assert_eq!(plan_levels(512, 512, 256), Some(2));
    assert_eq!(plan_levels(1, 1, 256), Some(1));
}

#[test]
fn plan_rejects_a_zero_tile_size() {
    assert_eq!(plan_levels(512, 512, 0), None);
}

#[test]
fn plan_rejects_a_tile_size_beyond_jpeg() {
    assert_eq!(plan_levels(512, 512, 65536), None);
}

#[test]
fn plan_rejects_an_empty_image() {
    assert_eq!(plan_levels(0, 512, 256), None);
    assert_eq!(plan_levels(512, 0, 256), None);
}

#[test]
fn plan_rejects_a_pyramid_of_too_many_levels() {
    // 2^15 * 1 = 32768 pixels is the largest image one-pixel tiles can
    // cover within 16 levels.
    assert_eq!(plan_levels(32768, 1, 1), Some(16));
    assert_eq!(plan_levels(32769, 1, 1), None);
}

#[test]
fn pow2_values() {
    assert_eq!(pow2_u32(0), 1);
    assert_eq!(pow2_u32(15), 32768);
    assert_eq!(pow2_u32(31), 0x8000_0000);
}
