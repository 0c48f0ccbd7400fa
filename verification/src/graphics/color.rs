use vstd::prelude::*;

verus! {

/// A pair of pixels: the low byte is the foreground, the high byte the background.
pub type Color = u16;

/// A pixel in the format `0bRRRGGGBB`.
pub type Pixel = u8;

pub const RED_MAX: u8 = 7;
pub const GREEN_MAX: u8 = 7;
pub const BLUE_MAX: u8 = 3;

/// The red channel of a pixel, in `0..=7`.
pub open spec fn red(p: u8) -> int {
    p as int / 32
}

/// The green channel of a pixel, in `0..=7`.
pub open spec fn green(p: u8) -> int {
    (p as int / 4) % 8
}

/// The blue channel of a pixel, in `0..=3`.
pub open spec fn blue(p: u8) -> int {
    p as int % 4
}

pub open spec fn min_int(a: int, b: int) -> int {
    if a <= b { a } else { b }
}

/// The pixel with the given channels, each clamped to its maximum.
pub open spec fn pack_clamped(r: int, g: int, b: int) -> int {
    min_int(r, 7) * 32 + min_int(g, 7) * 4 + min_int(b, 3)
}

/// Law: splitting a pixel into its channels and building it back gives the same pixel.
pub proof fn lemma_rgb_roundtrip(p: u8)
    ensures
        pack_clamped(red(p), green(p), blue(p)) == p,
{
}

/// Law: adding black (`0`) to a pixel leaves it unchanged.
pub proof fn lemma_add_black(p: u8)
    ensures
        pack_clamped(red(p) + red(0), green(p) + green(0), blue(p) + blue(0)) == p,
{
}

/// Law: subtracting a pixel from itself gives black.
pub proof fn lemma_subtract_self(p: u8)
    ensures
        pack_clamped(red(p) - red(p), green(p) - green(p), blue(p) - blue(p)) == 0,
{
}

/// Law: the average of a pixel with itself is that pixel.
pub proof fn lemma_average_self(p: u8)
    ensures
        pack_clamped((red(p) + red(p)) / 2, (green(p) + green(p)) / 2, (blue(p) + blue(p)) / 2) == p,
{
}

/// Splits a color into its low (foreground) and high (background) pixel.
pub fn split_color(color: Color) -> (r: (Pixel, Pixel))
    ensures
        r.0 == color % 256,
        r.1 == color / 256,
{
    broadcast use vstd::layout::layout_of_primitives;

    let shift: usize = core::mem::size_of::<Pixel>() * 8;
    assert(color >> 8usize == color / 256) by (bit_vector);
    assert(color as u8 == color % 256) by (bit_vector);
    (color as Pixel, (color >> shift) as Pixel)
}

/// Splits a pixel into its red, green and blue channels.
pub fn pixel_to_rgb(pixel: Pixel) -> (r: (u8, u8, u8))
    ensures
        r.0 == red(pixel),
        r.1 == green(pixel),
        r.2 == blue(pixel),
{
    let r: u8 = (pixel & 0b11100000) >> 5;
    let g: u8 = (pixel & 0b00011100) >> 2;
    let b: u8 = pixel & 0b00000011;
    assert((pixel & 0b11100000) >> 5 == pixel / 32) by (bit_vector);
    assert((pixel & 0b00011100) >> 2 == (pixel / 4) % 8) by (bit_vector);
    assert(pixel & 0b00000011 == pixel % 4) by (bit_vector);
    (r, g, b)
}

/// Builds a pixel from its channels, clamping each to its maximum.
pub fn rgb_to_pixel_clamped(r: u8, g: u8, b: u8) -> (p: Pixel)
    ensures
        p == pack_clamped(r as int, g as int, b as int),
{
    let r: u8 = if r < RED_MAX { r } else { RED_MAX };
    let g: u8 = if g < GREEN_MAX { g } else { GREEN_MAX };
    let b: u8 = if b < BLUE_MAX { b } else { BLUE_MAX };
    assert(r <= 7 && g <= 7 && b <= 3 ==> (r << 5u8 | g << 2u8 | b) == r * 32 + g * 4 + b)
        by (bit_vector);
    r << 5 | g << 2 | b
}

/// Channel-wise sum of two pixels, clamped.
pub fn add(prev_pixel: u8, pixel: u8) -> (p: Pixel)
    ensures
        p == pack_clamped(
            red(prev_pixel) + red(pixel),
            green(prev_pixel) + green(pixel),
            blue(prev_pixel) + blue(pixel),
        ),
{
    let (pr, pg, pb) = pixel_to_rgb(prev_pixel);
    let (r, g, b) = pixel_to_rgb(pixel);
    rgb_to_pixel_clamped(pr + r, pg + g, pb + b)
}

/// Channel-wise difference of two pixels.
/// The second pixel's channels must not exceed the first's.
pub fn subtract(prev_pixel: u8, pixel: u8) -> (p: Pixel)
    requires
        red(pixel) <= red(prev_pixel),
        green(pixel) <= green(prev_pixel),
        blue(pixel) <= blue(prev_pixel),
    ensures
        p == pack_clamped(
            red(prev_pixel) - red(pixel),
            green(prev_pixel) - green(pixel),
            blue(prev_pixel) - blue(pixel),
        ),
{
    let (pr, pg, pb) = pixel_to_rgb(prev_pixel);
    let (r, g, b) = pixel_to_rgb(pixel);
    rgb_to_pixel_clamped(pr - r, pg - g, pb - b)
}

/// Channel-wise product of two pixels, clamped.
pub fn multiply(prev_pixel: u8, pixel: u8) -> (p: Pixel)
    ensures
        p == pack_clamped(
            red(prev_pixel) * red(pixel),
            green(prev_pixel) * green(pixel),
            blue(prev_pixel) * blue(pixel),
        ),
{
    let (pr, pg, pb) = pixel_to_rgb(prev_pixel);
    let (r, g, b) = pixel_to_rgb(pixel);
    assert(pr * r <= 49 && pg * g <= 49 && pb * b <= 9) by (nonlinear_arith)
        requires
            pr <= 7,
            r <= 7,
            pg <= 7,
            g <= 7,
            pb <= 3,
            b <= 3,
    ;
    rgb_to_pixel_clamped(pr * r, pg * g, pb * b)
}

/// Channel-wise quotient of two pixels.
/// The second pixel's channels must all be non-zero.
pub fn divide(prev_pixel: u8, pixel: u8) -> (p: Pixel)
    requires
        red(pixel) != 0,
        green(pixel) != 0,
        blue(pixel) != 0,
    ensures
        p == pack_clamped(
            red(prev_pixel) / red(pixel),
            green(prev_pixel) / green(pixel),
            blue(prev_pixel) / blue(pixel),
        ),
{
    let (pr, pg, pb) = pixel_to_rgb(prev_pixel);
    let (r, g, b) = pixel_to_rgb(pixel);
    rgb_to_pixel_clamped(pr / r, pg / g, pb / b)
}

/// Channel-wise mean of two pixels, rounded down.
pub fn average(prev_pixel: u8, pixel: u8) -> (p: Pixel)
    ensures
        p == pack_clamped(
            (red(prev_pixel) + red(pixel)) / 2,
            (green(prev_pixel) + green(pixel)) / 2,
            (blue(prev_pixel) + blue(pixel)) / 2,
        ),
{
    let (pr, pg, pb) = pixel_to_rgb(prev_pixel);
    let (r, g, b) = pixel_to_rgb(pixel);
    rgb_to_pixel_clamped((pr + r) / 2, (pg + g) / 2, (pb + b) / 2)
}

/// Keeps the bits of `pixel` outside `write_mask`, and takes the bits inside it from
/// `prev_pixel` where `read_mask` also has them.
pub fn mask(prev_pixel: u8, pixel: u8, read_mask: u8, write_mask: u8) -> (p: Pixel)
    ensures
        p == (pixel & !write_mask) | (prev_pixel & write_mask & read_mask),
{
    (pixel & !write_mask) | (prev_pixel & write_mask & read_mask)
}

} // verus!
