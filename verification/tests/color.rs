use herdr_gui::color::{ansi16, blend, decode, dim, indexed_to_rgb, pack_rgb, unpack_rgb, DEFAULT_BG, DEFAULT_FG};

#[test]
fn rgb_tag_decodes_directly() {
    let packed = 0x02_00_00_00 | (0x12 << 16) | (0x34 << 8) | 0x56;
    assert_eq!(decode(packed, DEFAULT_FG), (0x12, 0x34, 0x56));
}

#[test]
fn reset_uses_default() {
    assert_eq!(decode(0x00_00_00_00, DEFAULT_BG), DEFAULT_BG);
    assert_eq!(decode(0x00_00_00_00, DEFAULT_FG), DEFAULT_FG);
}

#[test]
fn named_colors_map_to_ansi16() {
    // 0x02 in the named slot is Red -> ANSI index 1.
    assert_eq!(decode(0x00_00_00_02, DEFAULT_FG), ansi16(1));
    // 0x10 is White -> ANSI index 15.
    assert_eq!(decode(0x00_00_00_10, DEFAULT_FG), ansi16(15));
}

#[test]
fn indexed_cube_and_grayscale() {
    // 16 is the first cube entry -> (0,0,0).
    assert_eq!(decode(0x01_00_00_00 | 16, DEFAULT_FG), (0, 0, 0));
    // 231 is the last cube entry -> (255,255,255).
    assert_eq!(decode(0x01_00_00_00 | 231, DEFAULT_FG), (255, 255, 255));
    // 232 is the first grayscale step -> 8.
    assert_eq!(decode(0x01_00_00_00 | 232, DEFAULT_FG), (8, 8, 8));
}

#[test]
fn pack_round_trips_channels() {
    assert_eq!(pack_rgb((0x12, 0x34, 0x56)), 0x123456);
}

#[test]
fn unpack_inverts_pack() {
    for c in [(0u8, 0u8, 0u8), (255, 255, 255), (0x12, 0x34, 0x56), (1, 200, 3)] {
        assert_eq!(unpack_rgb(pack_rgb(c)), c);
    }
    assert_eq!(pack_rgb(unpack_rgb(0x00ab_cdef)), 0x00ab_cdef);
    // The top byte is ignored.
    assert_eq!(unpack_rgb(0xff12_3456), (0x12, 0x34, 0x56));
}

#[test]
fn unknown_names_and_tags_fall_back_to_default() {
    assert_eq!(decode(0x00_00_00_11, DEFAULT_FG), DEFAULT_FG);
    assert_eq!(decode(0x03_12_34_56, DEFAULT_BG), DEFAULT_BG);
    assert_eq!(decode(0x00_00_00_01, DEFAULT_FG), (0, 0, 0));
}

#[test]
fn cube_middle_and_gray_ramp_end() {
    // 16 + 36*1 + 6*2 + 3 = 67 -> levels (1, 2, 3) -> (95, 135, 175).
    assert_eq!(indexed_to_rgb(67), (95, 135, 175));
    assert_eq!(indexed_to_rgb(255), (238, 238, 238));
    assert_eq!(indexed_to_rgb(9), (255, 0, 0));
}

#[test]
fn dim_averages_channels() {
    assert_eq!(dim((255, 0, 101), (0, 0, 100)), (127, 0, 100));
}

#[test]
fn blend_full_and_zero_coverage() {
    assert_eq!(blend((10, 20, 30), (200, 100, 50), 255), (200, 100, 50));
    assert_eq!(blend((10, 20, 30), (200, 100, 50), 0), (10, 20, 30));
    assert_eq!(blend((0, 0, 0), (255, 255, 255), 128), (128, 128, 128));
}
