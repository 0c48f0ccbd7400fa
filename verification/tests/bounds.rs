use blaze64::graphics::bounds::{ellipse_points_fit, octant_points_fit};
use blaze64::graphics::graphics_state::GraphicsState;

fn region(width: u32, height: u32) -> GraphicsState {
    let mut g = GraphicsState::new();
    g.set_draw_region(0, width, height);
    g
}

#[test]
fn octant_fits_for_ordinary_radii() {
    assert!(octant_points_fit(0));
    assert!(octant_points_fit(2));
    assert!(octant_points_fit(1000));
    // A radius that turns into `i32::MIN` cannot be negated.
    assert!(!octant_points_fit(0x8000_0000));
}

#[test]
fn ellipse_quadrant_fits_for_ordinary_radii() {
    assert!(ellipse_points_fit(2, 1));
    assert!(ellipse_points_fit(30, 20));
}

#[test]
fn hline_bounds() {
    let g = region(4, 2);
    assert!(g.hline_fits(0, 0, 4));
    assert!(g.hline_fits(-1, 0, 3));
    // Rows outside the region draw nothing, whatever the width.
    assert!(g.hline_fits(i32::MIN, 5, u32::MAX));
    // Far to the left, only the part inside the region is drawn.
    assert!(g.hline_fits(i32::MIN, 0, u32::MAX));
}

#[test]
fn rect_bounds() {
    let g = region(4, 3);
    assert!(g.rect_fits(0, 0, 4, 3));
    assert!(g.filled_rect_fits(0, 0, 4, 3));
    // The far column `x + width - 1` does not fit in an `i32`.
    assert!(!g.rect_fits(i32::MAX, 0, 2, 1));
    // Far above, only the rows inside the region are drawn.
    assert!(g.filled_rect_fits(0, i32::MIN, 1, u32::MAX));
}

#[test]
fn line_bounds() {
    let g = region(4, 4);
    assert!(g.line_fits(0, 0, 3, 3));
    // The run from `i32::MIN` to `i32::MAX` does not fit in an `i32`.
    assert!(!g.line_fits(i32::MIN, 0, i32::MAX, 0));
}

#[test]
fn circle_and_ellipse_bounds() {
    let g = region(5, 5);
    assert!(g.circle_fits(2, 2, 2));
    assert!(g.filled_circle_fits(2, 2, 2));
    assert!(!g.circle_fits(2, 2, 0x8000_0000));
    assert!(!g.filled_circle_fits(2, 2, 0x8000_0000));
    assert!(g.ellipse_fits(2, 1, 2, 1));
    assert!(g.filled_ellipse_fits(2, 2, 2, 1));
}

#[test]
fn round_rect_and_sprite_bounds() {
    let g = region(6, 6);
    assert!(g.round_rect_fits(0, 0, 5, 4, 1));
    assert!(g.filled_round_rect_fits(0, 0, 5, 4, 1));
    assert!(g.sprite_fits(1, 1, &[1, 2, 3, 0], 2, 2));
}
