use blaze64::graphics::camera::Camera;
use blaze64::graphics::draw_region::{unsigned_abs, DrawRegion};
use blaze64::graphics::graphics_state::{byte_to_8_bytes, GraphicsState, FONT_SIZE};

fn state(width: u32, height: u32) -> (GraphicsState, Vec<u8>) {
    let mut g = GraphicsState::new();
    g.set_draw_region(0, width, height);
    (g, vec![0u8; (width * height) as usize])
}

fn lit(mem: &[u8], width: usize) -> Vec<(usize, usize, u8)> {
    let mut out = Vec::new();
    for (i, &p) in mem.iter().enumerate() {
        if p != 0 {
            out.push((i % width, i / width, p));
        }
    }
    out
}

#[test]
fn new_state_defaults() {
    let g = GraphicsState::new();
    assert_eq!(g.transparency_color, 0);
    assert_eq!(g.draw_address, 0);
    assert_eq!((g.draw_region.width, g.draw_region.height), (0, 0));
    assert_eq!((g.camera.x, g.camera.y), (0, 0));
    assert_eq!(g.font_address(), None);
    assert_eq!(g.get_fill_pattern(), 0);
}

#[test]
fn set_draw_region_and_transparency() {
    let mut g = GraphicsState::new();
    g.set_draw_region(1024, 16, 9);
    assert_eq!(g.draw_address, 1024);
    assert_eq!(g.draw_region.area(), 144);
    assert_eq!(g.set_transparency_color(7), 0);
    assert_eq!(g.set_transparency_color(3), 7);
    assert_eq!(g.transparency_color, 3);
}

#[test]
fn font_address_zero_means_default() {
    let mut g = GraphicsState::new();
    g.set_font(4096);
    assert_eq!(g.font_address(), Some(4096));
    g.set_font(0);
    assert_eq!(g.font_address(), None);
    g.set_font(12);
    g.use_default_font();
    assert_eq!(g.font_address(), None);
}

#[test]
fn fill_pattern_roundtrip() {
    let mut g = GraphicsState::new();
    let p: u64 = 0x0123_4567_89AB_CDEF;
    g.set_fill_pattern(p);
    assert_eq!(g.get_fill_pattern(), p);
    assert_eq!(g.fill_pattern, [0x01, 0x23, 0x45, 0x67, 0x89, 0xAB, 0xCD, 0xEF]);
}

#[test]
fn byte_to_8_bytes_least_significant_first() {
    assert_eq!(byte_to_8_bytes(0b0000_0101, 9, 1), [9, 1, 9, 1, 1, 1, 1, 1]);
    assert_eq!(byte_to_8_bytes(0xFF, 4, 2), [4; 8]);
    assert_eq!(byte_to_8_bytes(0, 4, 2), [2; 8]);
}

#[test]
fn camera_translates_by_wrapping_subtraction() {
    let mut c = Camera::new(3, -2);
    assert_eq!(c.translate(10, 10), (7, 12));
    c.set_position(1, 1);
    assert_eq!(c.translate(0, 0), (-1, -1));
    c.set_position(i32::MIN, 0);
    assert_eq!(c.translate(0, 0), (i32::MIN, 0));
}

#[test]
fn draw_region_geometry() {
    let r = DrawRegion::new(4, 3);
    assert_eq!(r.area(), 12);
    assert!(r.inside_width(0) && r.inside_width(3));
    assert!(!r.inside_width(4) && !r.inside_width(-1));
    assert!(r.inside_height(2) && !r.inside_height(3));
    assert_eq!(r.as_index(1, 2), 9);
    assert_eq!(unsigned_abs(-5), 5);
    assert_eq!(unsigned_abs(i32::MIN), 0x8000_0000);
}

#[test]
fn draw_region_clamping() {
    let r = DrawRegion::new(10, 5);
    assert_eq!(r.clamp_width(2, 3), (2, 3, 0));
    assert_eq!(r.clamp_width(8, 5), (8, 2, 0));
    assert_eq!(r.clamp_width(-3, 4), (0, 1, 3));
    assert_eq!(r.clamp_width(12, 4), (12, 0, 0));
    assert_eq!(r.clamp_height(-1, 2), (0, 1, 1));
    assert_eq!(r.clamp_height(4, 9), (4, 1, 0));
}

#[test]
fn draw_region_pixels() {
    let mut r = DrawRegion::new(3, 2);
    let mut mem = vec![0u8; 6];
    r.set_pixel(&mut mem, 2, 1, 8);
    r.set_pixel(&mut mem, 3, 0, 9);
    r.set_pixel(&mut mem, -1, 0, 9);
    assert_eq!(mem, vec![0, 0, 0, 0, 0, 8]);
    assert_eq!(r.get_pixel_wrapped(&mem, 5, 3), 8);
    // Negative positions wrap around too.
    assert_eq!(r.get_pixel_wrapped(&mem, -1, -1), 8);
    assert_eq!(r.get_pixel_wrapped(&mem, -4, 1), 8);
    assert_eq!(r.get_line(&mem, 1), &[0, 0, 8]);
}

#[test]
fn draw_pixel_uses_foreground_and_camera() {
    let (mut g, mut mem) = state(4, 3);
    g.draw_pixel(&mut mem, 1, 2, 0x0905);
    assert_eq!(lit(&mem, 4), vec![(1, 2, 5)]);
    g.camera.set_position(1, 1);
    g.draw_pixel(&mut mem, 1, 1, 0x0003);
    assert_eq!(lit(&mem, 4), vec![(0, 0, 3), (1, 2, 5)]);
    g.draw_pixel(&mut mem, 9, 9, 0x0003);
    assert_eq!(lit(&mem, 4), vec![(0, 0, 3), (1, 2, 5)]);
}

#[test]
fn draw_pixel_checked_skips_transparent() {
    let (mut g, mut mem) = state(2, 2);
    g.draw_pixel_checked(&mut mem, 0, 0, 0x0700);
    assert_eq!(lit(&mem, 2), vec![]);
    g.set_transparency_color(4);
    g.draw_pixel_checked(&mut mem, 1, 1, 0x0004);
    assert_eq!(lit(&mem, 2), vec![]);
    g.draw_pixel_checked(&mut mem, 1, 1, 0x0006);
    assert_eq!(lit(&mem, 2), vec![(1, 1, 6)]);
}

#[test]
fn fill_pattern_selects_background() {
    let (mut g, mut mem) = state(8, 2);
    g.set_fill_pattern(0x8001_0000_0000_0000);
    g.draw_hline(&mut mem, 0, 0, 8, 0x0902);
    g.draw_hline(&mut mem, 0, 1, 8, 0x0902);
    assert_eq!(&mem[0..8], &[2, 2, 2, 2, 2, 2, 2, 9]);
    assert_eq!(&mem[8..16], &[9, 2, 2, 2, 2, 2, 2, 2]);
}

#[test]
fn hline_is_clamped() {
    let (mut g, mut mem) = state(4, 2);
    g.draw_hline(&mut mem, -1, 0, 3, 7);
    g.draw_hline(&mut mem, 2, 1, 10, 5);
    g.draw_hline(&mut mem, 0, 2, 4, 1);
    // Only the part of a line inside the region is drawn.
    assert_eq!(mem, vec![7, 7, 0, 0, 0, 0, 5, 5]);
}

#[test]
fn vline_is_clamped() {
    let (mut g, mut mem) = state(4, 2);
    g.draw_vline(&mut mem, 3, 0, 5, 9);
    // A column past the right edge is written by index: into the start of the next row, and
    // not at all past the end of memory.
    g.draw_vline(&mut mem, 4, 0, 2, 9);
    assert_eq!(mem, vec![0, 0, 0, 9, 9, 0, 0, 9]);
}

#[test]
fn rectangle_outline() {
    let (mut g, mut mem) = state(4, 3);
    g.draw_rectangle(&mut mem, 0, 0, 4, 3, 1);
    assert_eq!(mem, vec![1, 1, 1, 1, 1, 0, 0, 1, 1, 1, 1, 1]);
}

#[test]
fn filled_rectangle() {
    let (mut g, mut mem) = state(4, 3);
    g.draw_filled_rectangle(&mut mem, 1, 1, 2, 5, 6);
    assert_eq!(mem, vec![0, 0, 0, 0, 0, 6, 6, 0, 0, 6, 6, 0]);
}

#[test]
fn clear_draw_region_fills_area() {
    let (g, mut mem) = state(3, 2);
    let mut big = mem.clone();
    big.push(42);
    g.clear_draw_region(&mut big, 7);
    assert_eq!(big, vec![7, 7, 7, 7, 7, 7, 42]);
    g.clear_draw_region(&mut mem, 1);
    assert_eq!(mem, vec![1; 6]);
}

#[test]
fn line_points_follow_the_loop() {
    let g = GraphicsState::new();
    assert_eq!(g.line_points(0, 0, 3, 3), vec![(0, 0), (1, 1), (2, 2), (3, 3)]);
    assert_eq!(g.line_points(0, 0, 4, 2), vec![(0, 0), (1, 1), (2, 2), (3, 3), (4, 4)]);
    assert_eq!(g.line_points(0, 0, 3, 0), vec![(0, 0), (1, 0), (2, 0), (3, 0)]);
    assert_eq!(g.line_points(2, 0, 1, 0), vec![]);
}

#[test]
fn draw_line_plots_its_points() {
    let (mut g, mut mem) = state(4, 4);
    g.draw_line(&mut mem, 0, 0, 3, 3, 2);
    assert_eq!(lit(&mem, 4), vec![(0, 0, 2), (1, 1, 2), (2, 2, 2), (3, 3, 2)]);
}

#[test]
fn circle_octant_points() {
    let g = GraphicsState::new();
    assert_eq!(g.draw_circle_octant_points(0), vec![]);
    assert_eq!(g.draw_circle_octant_points(2), vec![(0, -2), (1, -2)]);
    assert_eq!(g.draw_circle_octant_points(3), vec![(0, -3), (1, -3), (2, -2)]);
}

#[test]
fn circle_outline() {
    let (mut g, mut mem) = state(5, 5);
    g.draw_circle(&mut mem, 2, 2, 2, 3);
    let mut expected = Vec::new();
    for &(x, y) in &[
        (1, 0), (2, 0), (3, 0),
        (0, 1), (4, 1),
        (0, 2), (4, 2),
        (0, 3), (4, 3),
        (1, 4), (2, 4), (3, 4),
    ] {
        expected.push((x, y, 3u8));
    }
    expected.sort_by_key(|&(x, y, _)| (y, x));
    assert_eq!(lit(&mem, 5), expected);
}

#[test]
fn ellipse_quadrant_points() {
    let g = GraphicsState::new();
    assert_eq!(g.draw_ellipse_quardrant_points(2, 1), vec![(0, 1), (1, 0)]);
}

#[test]
fn ellipse_outline() {
    let (mut g, mut mem) = state(5, 3);
    g.draw_ellipse(&mut mem, 2, 1, 2, 1, 4);
    assert_eq!(lit(&mem, 5), vec![(2, 0, 4), (1, 1, 4), (3, 1, 4), (2, 2, 4)]);
}

#[test]
fn sprite_copies_all_but_transparent() {
    let (mut g, mut mem) = state(4, 4);
    g.draw_sprite(&mut mem, 1, 1, &[1, 2, 3, 0], 2, 2);
    assert_eq!(lit(&mem, 4), vec![(1, 1, 1), (2, 1, 2), (1, 2, 3)]);
}

#[test]
fn sprite_clipped_at_top() {
    let (mut g, mut mem) = state(4, 4);
    g.draw_sprite(&mut mem, 0, -1, &[1, 2, 3, 4], 2, 2);
    assert_eq!(lit(&mem, 4), vec![(0, 0, 3), (1, 0, 4)]);
}

#[test]
fn text_draws_characters_and_newlines() {
    let (mut g, mut mem) = state(16, 16);
    let mut font = [0u8; FONT_SIZE];
    font[b'A' as usize * 8] = 0b0000_0001;
    font[b'B' as usize * 8 + 1] = 0b0000_0011;
    g.draw_text(&mut mem, &font, b"AB\nA", 0, 0, 5, 0);
    assert_eq!(lit(&mem, 16), vec![(0, 0, 5), (8, 1, 5), (9, 1, 5), (0, 8, 5)]);
}

#[test]
fn text_wraps_when_out_of_width() {
    let (mut g, mut mem) = state(8, 16);
    let mut font = [0u8; FONT_SIZE];
    font[b'A' as usize * 8] = 0b0000_0001;
    g.draw_text(&mut mem, &font, b"AAA", 0, 0, 5, 0);
    assert_eq!(lit(&mem, 8), vec![(0, 0, 5), (0, 8, 5)]);
}

#[test]
fn clamping_keeps_the_part_inside() {
    let r = DrawRegion::new(10, 4);
    assert_eq!(r.clamp_width(-2, 5), (0, 3, 2));
    assert_eq!(r.clamp_width(8, 5), (8, 2, 0));
    assert_eq!(r.clamp_width(-7, 5), (0, 0, 7));
    assert_eq!(r.clamp_height(-1, 3), (0, 2, 1));
    assert_eq!(r.clamp_height(2, 5), (2, 2, 0));
    assert_eq!(r.clamp_height(5, 3), (5, 0, 0));
}

#[test]
fn rectangle_outline_clipped_on_the_left() {
    let (mut g, mut mem) = state(4, 4);
    g.draw_rectangle(&mut mem, -1, 0, 3, 3, 1);
    // The left edge, in column -1, is written by index: its rows 1 and 2 land at the end of
    // rows 0 and 1; its row 0 would be before memory and is not written.
    assert_eq!(mem, vec![1, 1, 0, 1, 0, 1, 0, 1, 1, 1, 0, 0, 0, 0, 0, 0]);
}

#[test]
fn filled_rectangle_clipped_at_top() {
    let (mut g, mut mem) = state(4, 4);
    g.draw_filled_rectangle(&mut mem, 0, -1, 4, 2, 9);
    assert_eq!(mem, vec![9, 9, 9, 9, 0, 0, 0, 0, 0, 0, 0, 0, 0, 0, 0, 0]);
}

#[test]
fn sprite_writes_only_its_opaque_pixels() {
    let (mut g, mut mem) = state(4, 4);
    g.draw_sprite(&mut mem, 1, 1, &[1, 0, 2, 3], 2, 2);
    assert_eq!(mem, vec![0, 0, 0, 0, 0, 1, 0, 0, 0, 2, 3, 0, 0, 0, 0, 0]);
}
