use vstd::prelude::*;

use crate::graphics::color::{blue, green, red};

verus! {

pub const FRAMEBUFFER_WIDTH: usize = 384;
pub const FRAMEBUFFER_HEIGHT: usize = 216;
pub const FRAMEBUFFER_SIZE: usize = FRAMEBUFFER_WIDTH * FRAMEBUFFER_HEIGHT;

/// A channel value scaled by `factor`, saturating at 255.
pub open spec fn scale_channel(c: int, factor: int) -> u8 {
    if c * factor > 255 { 255 } else { (c * factor) as u8 }
}

/// The 8-bit RGB color of a pixel.
pub open spec fn rgb_of(byte: u8) -> (u8, u8, u8) {
    (scale_channel(red(byte), 37), scale_channel(green(byte), 37), scale_channel(blue(byte), 85))
}

fn saturating_mul_u8(a: u8, b: u8) -> (r: u8)
    ensures
        r == scale_channel(a as int, b as int),
{
    assert(a as u16 * b as u16 <= 65025) by (nonlinear_arith)
        requires
            a <= 255,
            b <= 255,
    ;
    let p: u16 = a as u16 * b as u16;
    if p > 255 {
        255
    } else {
        p as u8
    }
}

/// Takes a byte in the format `0bRRRGGGBB` and returns an RGB tuple, normalized to `[0, 255]`.
pub fn byte_to_rgb(byte: u8) -> (rgb: (u8, u8, u8))
    ensures
        rgb == rgb_of(byte),
{
    let r: u8 = (byte & 0b11100000) >> 5;
    let g: u8 = (byte & 0b00011100) >> 2;
    let b: u8 = byte & 0b00000011;
    assert((byte & 0b11100000) >> 5 == byte / 32) by (bit_vector);
    assert((byte & 0b00011100) >> 2 == (byte / 4) % 8) by (bit_vector);
    assert(byte & 0b00000011 == byte % 4) by (bit_vector);
    (saturating_mul_u8(r, 37), saturating_mul_u8(g, 37), b * 85)
}

/// The RGBA8888 form of a framebuffer: four bytes per pixel, opaque. A framebuffer shorter than
/// the screen leaves the rest black and transparent; a longer one is cut to the screen's size.
pub open spec fn rgba_of(framebuffer: Seq<u8>) -> Seq<u8> {
    Seq::new(
        (FRAMEBUFFER_SIZE * 4) as nat,
        |k: int|
            if k / 4 < framebuffer.len() {
                let rgb = rgb_of(framebuffer[k / 4]);
                if k % 4 == 0 {
                    rgb.0
                } else if k % 4 == 1 {
                    rgb.1
                } else if k % 4 == 2 {
                    rgb.2
                } else {
                    255u8
                }
            } else {
                0u8
            },
    )
}

/// Converts a framebuffer into the pixels uploaded to the screen texture.
pub fn framebuffer_rgba(framebuffer: &[u8]) -> (rgba: Vec<u8>)
    ensures
        rgba@ == rgba_of(framebuffer@),
{
    let mut len = framebuffer.len();
    if len > FRAMEBUFFER_SIZE {
        len = FRAMEBUFFER_SIZE;
    }

    let mut fb_rgba8888: Vec<u8> = vec![0u8; FRAMEBUFFER_SIZE * 4];
    for i in 0..len
        invariant
            len <= FRAMEBUFFER_SIZE,
            len <= framebuffer@.len(),
            fb_rgba8888@.len() == FRAMEBUFFER_SIZE * 4,
            forall|k: int| 0 <= k < FRAMEBUFFER_SIZE * 4 ==> #[trigger] fb_rgba8888@[k] == (
                if k / 4 < i { rgba_of(framebuffer@)[k] } else { 0u8 }),
    {
        let (r, g, b) = byte_to_rgb(framebuffer[i]);
        fb_rgba8888.set(i * 4, r);
        fb_rgba8888.set(i * 4 + 1, g);
        fb_rgba8888.set(i * 4 + 2, b);
        fb_rgba8888.set(i * 4 + 3, 255);
    }
    assert(fb_rgba8888@ =~= rgba_of(framebuffer@));
    fb_rgba8888
}

} // verus!
