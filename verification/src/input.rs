use vstd::prelude::*;

use crate::driver::screen::{FRAMEBUFFER_HEIGHT, FRAMEBUFFER_WIDTH};

verus! {

/// Integer division rounding toward zero, as Rust's `/` on signed integers does. (The `/` of
/// specifications is Euclidean; on a non-negative dividend the two agree.)
pub open spec fn div_toward_zero(a: int, b: int) -> int {
    if a >= 0 { a / b } else { -((-a) / b) }
}

/// Law: a coordinate inside a positive length lands inside the normalized length.
pub proof fn lemma_normalized_within(x: int, length: int, normalized_length: int)
    requires
        0 <= x < length,
        normalized_length > 0,
    ensures
        0 <= div_toward_zero(x * normalized_length, length) < normalized_length,
{
    assert(0 <= x * normalized_length < length * normalized_length) by (nonlinear_arith)
        requires
            0 <= x < length,
            normalized_length > 0,
    ;
    assert(0 <= (x * normalized_length) / length < normalized_length) by (nonlinear_arith)
        requires
            0 <= x * normalized_length < length * normalized_length,
            length > 0,
    ;
}

/// Euclidean division by a negative divisor is the negated division by its absolute value.
proof fn lemma_div_by_negative(a: int, b: int)
    requires
        b < 0,
    ensures
        a / b == -(a / (-b)),
{
    assert(a / b == -(a / (-b))) by (nonlinear_arith)
        requires
            b < 0,
    ;
}

/// Normalizes a given coordinate to be within `normalized_length`.
pub fn normalize_coordinate(x: i32, length: i32, normalized_length: i32) -> (n: u16)
    requires
        length != 0,
        i32::MIN <= x * normalized_length <= i32::MAX,
        !(x * normalized_length == i32::MIN && length == -1),
    ensures
        n == div_toward_zero(x * normalized_length, length as int) as u16,
{
    let p = x * normalized_length;
    // Divides the magnitudes and puts the sign back, which is how `/` truncates.
    let a: u64 = if p < 0 { (-(p as i64)) as u64 } else { p as u64 };
    let b: u64 = if length < 0 { (-(length as i64)) as u64 } else { length as u64 };
    let m = a / b;
    proof {
        if length < 0 {
            lemma_div_by_negative(p as int, length as int);
            lemma_div_by_negative(-(p as int), length as int);
        }
    }
    let q: i64 = if (p < 0) != (length < 0) { -(m as i64) } else { m as i64 };
    assert(q == div_toward_zero(p as int, length as int));
    q as u16
}

/// The mouse position, in framebuffer coordinates.
#[derive(Debug)]
pub struct MouseState {
    pub x: u16,
    pub y: u16,
}

impl MouseState {
    pub fn new() -> (s: Self)
        ensures
            s.x == 0,
            s.y == 0,
    {
        Self { x: 0, y: 0 }
    }

    /// Takes the mouse position in a window of the given size, scaled to the framebuffer.
    pub fn update(&mut self, screen_width: i32, screen_height: i32, mouse_x: i32, mouse_y: i32)
        requires
            screen_width != 0,
            screen_height != 0,
            !(mouse_x * FRAMEBUFFER_WIDTH == i32::MIN && screen_width == -1),
            !(mouse_y * FRAMEBUFFER_HEIGHT == i32::MIN && screen_height == -1),
            i32::MIN <= mouse_x * FRAMEBUFFER_WIDTH <= i32::MAX,
            i32::MIN <= mouse_y * FRAMEBUFFER_HEIGHT <= i32::MAX,
        ensures
            final(self).x == div_toward_zero(mouse_x * FRAMEBUFFER_WIDTH, screen_width as int) as u16,
            final(self).y == div_toward_zero(mouse_y * FRAMEBUFFER_HEIGHT, screen_height as int) as u16,
    {
        self.x = normalize_coordinate(mouse_x, screen_width, FRAMEBUFFER_WIDTH as i32);
        self.y = normalize_coordinate(mouse_y, screen_height, FRAMEBUFFER_HEIGHT as i32);
    }
}

} // verus!
