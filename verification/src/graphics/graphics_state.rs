use vstd::prelude::*;

use crate::graphics::camera::{translate_spec, Camera};
use crate::graphics::color::{split_color, Color};
use crate::graphics::draw_region::{abs_u32, DrawRegion};

verus! {

/// The size in bytes of a bitmap font: 8 rows of 8 pixels for each of 256 characters.
pub const FONT_SIZE: usize = 8 * 256;

/// Represents the state of drawing within a process.
/// The reason this is part of the process itself is to avoid the overhead of type conversion within
/// drivers.
pub struct GraphicsState {
    /// The current transparency color
    pub transparency_color: u8,
    /// The 2d region of memory to draw pixels to.
    pub draw_region: DrawRegion,
    /// The address to draw to.
    pub draw_address: usize,
    /// The camera.
    pub camera: Camera,
    /// The optional (non-zero) address of the bitmap font to use in `draw_text`.
    /// When None, the default font is used.
    pub font_address: Option<u32>,
    pub fill_pattern: [u8; 8],
}

/// Whether bit `i` (counted from the least significant) of `byte` is set.
pub open spec fn bit_set(byte: u8, i: int) -> bool {
    (byte >> (i as u8)) & 1u8 == 1u8
}

/// The eight pixels of a pattern byte: bit `i` selects `one` or `zero` for pixel `i`.
pub open spec fn spread_bits(byte: u8, one: u8, zero: u8) -> Seq<u8> {
    Seq::new(8, |i: int| if bit_set(byte, i) { one } else { zero })
}

/// The pixel that the fill pattern gives the point `(x, y)` for a color: the pattern row is
/// `y` modulo 8 and the pattern column `x` modulo 8; a set bit selects the color's high
/// (background) byte, a clear bit its low (foreground) byte.
pub open spec fn fill_pixel(pattern: Seq<u8>, x: int, y: int, color: u16) -> u8 {
    spread_bits(pattern[y % 8], (color / 256) as u8, (color % 256) as u8)[x % 8]
}

/// The big-endian bytes of a `u64`.
pub open spec fn be_bytes(v: u64) -> Seq<u8> {
    seq![
        (v >> 56u64) as u8,
        (v >> 48u64) as u8,
        (v >> 40u64) as u8,
        (v >> 32u64) as u8,
        (v >> 24u64) as u8,
        (v >> 16u64) as u8,
        (v >> 8u64) as u8,
        v as u8,
    ]
}

/// The `u64` whose big-endian bytes are the first eight of `b`.
pub open spec fn from_be(b: Seq<u8>) -> u64 {
    (b[0] as u64) << 56u64 | (b[1] as u64) << 48u64 | (b[2] as u64) << 40u64 | (b[3] as u64) << 32u64
        | (b[4] as u64) << 24u64 | (b[5] as u64) << 16u64 | (b[6] as u64) << 8u64 | (b[7] as u64)
}

/// Law: reading the fill pattern back gives the value it was set from.
pub proof fn lemma_fill_pattern_roundtrip(v: u64)
    ensures
        from_be(be_bytes(v)) == v,
{
    let b0 = (v >> 56u64) as u8;
    let b1 = (v >> 48u64) as u8;
    let b2 = (v >> 40u64) as u8;
    let b3 = (v >> 32u64) as u8;
    let b4 = (v >> 24u64) as u8;
    let b5 = (v >> 16u64) as u8;
    let b6 = (v >> 8u64) as u8;
    let b7 = v as u8;
    assert(((v >> 56u64) as u8 as u64) << 56u64 | ((v >> 48u64) as u8 as u64) << 48u64
        | ((v >> 40u64) as u8 as u64) << 40u64 | ((v >> 32u64) as u8 as u64) << 32u64
        | ((v >> 24u64) as u8 as u64) << 24u64 | ((v >> 16u64) as u8 as u64) << 16u64
        | ((v >> 8u64) as u8 as u64) << 8u64 | (v as u8 as u64) == v) by (bit_vector);
}

proof fn lemma_usize_mod8(x: i32)
    ensures
        (x as usize) % 8 == (x as int) % 8,
{
    assert((x as usize) % 8 == (x & 7i32) as usize) by (bit_vector);
    assert((x & 7i32) + (x >> 3i32) * 8 == x) by (bit_vector);
    assert(0 <= (x & 7i32) < 8) by (bit_vector);
    let r = (x & 7i32) as int;
    let q = (x >> 3i32) as int;
    assert((x as int) % 8 == r) by (nonlinear_arith)
        requires
            x as int == q * 8 + r,
            0 <= r < 8,
    ;
}

/// Spreads the bits of `byte` into eight pixels: a set bit gives `one_value`, a clear bit
/// `zero_value`.
pub fn byte_to_8_bytes(byte: u8, one_value: u8, zero_value: u8) -> (bytes: [u8; 8])
    ensures
        bytes@ == spread_bits(byte, one_value, zero_value),
{
    let mut bytes = [0u8; 8];
    for i in 0..8usize
        invariant
            bytes@.len() == 8,
            forall|j: int| 0 <= j < i ==> bytes@[j] == spread_bits(byte, one_value, zero_value)[j],
    {
        let bit: u8 = (byte >> i) & 1;
        assert(bit == (byte >> (i as u8)) & 1u8) by (bit_vector)
            requires
                bit == (byte >> i) & 1u8,
                i < 8,
        ;
        bytes[i] = if bit == 1 { one_value } else { zero_value };
    }
    assert(bytes@ =~= spread_bits(byte, one_value, zero_value));
    bytes
}

impl GraphicsState {
    /// Whether the draw region and the memory that starts at it can be drawn to: every index
    /// in the region fits the `i32` index arithmetic, neither side is near `i32::MAX`, and the
    /// memory covers the region.
    pub open spec fn ready(self, mem: Seq<u8>) -> bool {
        &&& self.draw_region.fits()
        &&& self.draw_region.width <= 0x7fff_ffff
        &&& self.draw_region.height <= 0x7fff_ffff
        &&& mem.len() >= self.draw_region.size()
    }

    /// The font address is never `Some(0)`.
    pub open spec fn wf(self) -> bool {
        self.font_address matches Some(a) ==> a != 0
    }

    /// `mem` with the point `(x, y)` (screen coordinates) drawn in the fill pattern's pixel
    /// for `color`, when the point is inside the draw region.
    pub open spec fn plot(self, mem: Seq<u8>, x: int, y: int, color: u16) -> Seq<u8> {
        self.draw_region.put(mem, x, y, fill_pixel(self.fill_pattern@, x, y, color))
    }

    /// `n` points plotted rightwards from `(x, y)`, in order.
    pub open spec fn run_h(self, mem: Seq<u8>, x: int, y: int, n: nat, color: u16) -> Seq<u8>
        decreases n,
    {
        if n == 0 {
            mem
        } else {
            self.plot(self.run_h(mem, x, y, (n - 1) as nat, color), x + n - 1, y, color)
        }
    }

    /// `mem` with the byte at the index of `(x, y)` set to the point's fill pixel, when that
    /// index is inside `mem`, whether or not the point is inside the region.
    pub open spec fn plot_at_index(self, mem: Seq<u8>, x: int, y: int, color: u16) -> Seq<u8> {
        let i = x + y * self.draw_region.width;
        if 0 <= i < mem.len() {
            mem.update(i, fill_pixel(self.fill_pattern@, x, y, color))
        } else {
            mem
        }
    }

    /// `n` points written downwards from `(x, y)` by their indices, in order.
    pub open spec fn run_v_at_index(self, mem: Seq<u8>, x: int, y: int, n: nat, color: u16) -> Seq<u8>
        decreases n,
    {
        if n == 0 {
            mem
        } else {
            self.plot_at_index(self.run_v_at_index(mem, x, y, (n - 1) as nat, color), x, y + n - 1, color)
        }
    }

    /// `n` points plotted downwards from `(x, y)`, in order.
    pub open spec fn run_v(self, mem: Seq<u8>, x: int, y: int, n: nat, color: u16) -> Seq<u8>
        decreases n,
    {
        if n == 0 {
            mem
        } else {
            self.plot(self.run_v(mem, x, y, (n - 1) as nat, color), x, y + n - 1, color)
        }
    }
}

impl GraphicsState {
    pub fn new() -> (s: Self)
        ensures
            s.transparency_color == 0,
            s.draw_region.width == 0,
            s.draw_region.height == 0,
            s.draw_address == 0,
            s.camera.x == 0,
            s.camera.y == 0,
            s.font_address is None,
            s.fill_pattern@ == seq![0u8, 0, 0, 0, 0, 0, 0, 0],
            s.wf(),
    {
        let s = Self {
            transparency_color: 0,
            draw_region: DrawRegion::new(0, 0),
            draw_address: 0,
            camera: Camera::new(0, 0),
            font_address: None,
            fill_pattern: [0u8; 8],
        };
        assert(s.fill_pattern@ =~= seq![0u8, 0, 0, 0, 0, 0, 0, 0]);
        s
    }

    /// Uses the font at `font_address`, or the default font when the address is 0.
    pub fn set_font(&mut self, font_address: u32)
        ensures
            final(self).font_address == (if font_address == 0 { None } else { Some(font_address) }),
            final(self).transparency_color == old(self).transparency_color,
            final(self).draw_region == old(self).draw_region,
            final(self).draw_address == old(self).draw_address,
            final(self).camera == old(self).camera,
            final(self).fill_pattern == old(self).fill_pattern,
            final(self).wf(),
    {
        self.font_address = if font_address == 0 { None } else { Some(font_address) };
    }

    pub fn font_address(&self) -> (r: Option<u32>)
        ensures
            r == self.font_address,
    {
        self.font_address
    }

    pub fn use_default_font(&mut self)
        ensures
            final(self).font_address is None,
            final(self).transparency_color == old(self).transparency_color,
            final(self).draw_region == old(self).draw_region,
            final(self).draw_address == old(self).draw_address,
            final(self).camera == old(self).camera,
            final(self).fill_pattern == old(self).fill_pattern,
            final(self).wf(),
    {
        self.font_address = None;
    }

    /// Draws to the `width` by `height` region of memory at `address` from now on.
    pub fn set_draw_region(&mut self, address: usize, width: u32, height: u32)
        ensures
            *final(self) == (GraphicsState {
                draw_address: address,
                draw_region: DrawRegion { width, height },
                ..*old(self)
            }),
    {
        self.draw_address = address;
        self.draw_region = DrawRegion::new(width, height);
    }

    /// Makes `color` the transparent one; returns the one it replaces.
    pub fn set_transparency_color(&mut self, color: u8) -> (previous: u8)
        ensures
            previous == old(self).transparency_color,
            *final(self) == (GraphicsState { transparency_color: color, ..*old(self) }),
    {
        let previous = self.transparency_color;
        self.transparency_color = color;
        previous
    }

    /// Fills the whole draw region with `color`; `memory` starts at the draw address.
    pub fn clear_draw_region(&self, memory: &mut [u8], color: u8)
        requires
            self.draw_region.size() <= u32::MAX,
            old(memory)@.len() >= self.draw_region.size(),
        ensures
            final(memory)@.len() == old(memory)@.len(),
            forall|i: int| 0 <= i < self.draw_region.size() ==> #[trigger] final(memory)@[i] == color,
            forall|i: int|
                self.draw_region.size() <= i < old(memory)@.len() ==> #[trigger] final(memory)@[i] == old(memory)@[i],
    {
        let area = self.draw_region.area() as usize;
        let mut i: usize = 0;
        while i < area
            invariant
                area == self.draw_region.size(),
                i <= area,
                memory@.len() == old(memory)@.len(),
                area <= memory@.len(),
                forall|j: int| 0 <= j < i ==> #[trigger] memory@[j] == color,
                forall|j: int| area <= j < memory@.len() ==> #[trigger] memory@[j] == old(memory)@[j],
            decreases area - i,
        {
            memory[i] = color;
            i = i + 1;
        }
    }

    /// Sets the fill pattern from its big-endian bytes: the first byte is the first row.
    pub fn set_fill_pattern(&mut self, fillp: u64)
        ensures
            final(self).fill_pattern@ == be_bytes(fillp),
            final(self).transparency_color == old(self).transparency_color,
            final(self).draw_region == old(self).draw_region,
            final(self).draw_address == old(self).draw_address,
            final(self).camera == old(self).camera,
            final(self).font_address == old(self).font_address,
    {
        self.fill_pattern = [
            (fillp >> 56) as u8,
            (fillp >> 48) as u8,
            (fillp >> 40) as u8,
            (fillp >> 32) as u8,
            (fillp >> 24) as u8,
            (fillp >> 16) as u8,
            (fillp >> 8) as u8,
            fillp as u8,
        ];
        assert(self.fill_pattern@ =~= be_bytes(fillp));
    }

    pub fn get_fill_pattern(&self) -> (r: u64)
        ensures
            r == from_be(self.fill_pattern@),
    {
        let p = &self.fill_pattern;
        (p[0] as u64) << 56 | (p[1] as u64) << 48 | (p[2] as u64) << 40 | (p[3] as u64) << 32
            | (p[4] as u64) << 24 | (p[5] as u64) << 16 | (p[6] as u64) << 8 | (p[7] as u64)
    }

    /// Gets the fill pattern line for any y coordinate in the draw region.
    fn get_fill_pattern_line(&self, y: usize, color: Color) -> (line: [u8; 8])
        ensures
            line@ == spread_bits(self.fill_pattern@[(y % 8) as int], (color / 256) as u8, (color % 256) as u8),
    {
        let (fg, bg) = split_color(color);
        byte_to_8_bytes(self.fill_pattern[y % 8], bg, fg)
    }

    fn get_fill_pattern_pixel(&self, x: usize, y: usize, color: Color) -> (p: u8)
        ensures
            p == spread_bits(self.fill_pattern@[(y % 8) as int], (color / 256) as u8, (color % 256) as u8)[(x % 8) as int],
    {
        self.get_fill_pattern_line(y, color)[x % 8]
    }

    /// The fill pattern's pixel for a point, computed the way the drawing code does it.
    fn fill_at(&self, x: i32, y: i32, color: Color) -> (p: u8)
        ensures
            p == fill_pixel(self.fill_pattern@, x as int, y as int, color),
    {
        proof {
            lemma_usize_mod8(x);
            lemma_usize_mod8(y);
        }
        self.get_fill_pattern_pixel(x as usize, y as usize, color)
    }
}

/// `v - 1`, or 0 when `v` is 0.
pub open spec fn sat_dec(v: u32) -> u32 {
    if v == 0 { 0 } else { (v - 1) as u32 }
}

pub open spec fn in_i32(v: int) -> bool {
    i32::MIN <= v <= i32::MAX
}

impl GraphicsState {
    /// A pixel drawn at world coordinates: translated by the camera, then plotted.
    pub open spec fn pixel_spec(self, mem: Seq<u8>, x: i32, y: i32, color: u16) -> Seq<u8> {
        let t = translate_spec(self.camera, x, y);
        self.plot(mem, t.0 as int, t.1 as int, color)
    }

    /// A horizontal line at screen coordinates, as `draw_hline` draws it once translated.
    pub open spec fn hline_at(self, mem: Seq<u8>, x: i32, y: i32, width: u32, color: u16) -> Seq<u8> {
        if !self.draw_region.inside_height_spec(y as int) {
            mem
        } else {
            let c = DrawRegion::clamp_spec(x, width, self.draw_region.width);
            self.run_h(mem, c.0 as int, y as int, c.1 as nat, color)
        }
    }

    /// The inputs at screen coordinates on which `draw_hline` does not overflow.
    pub open spec fn hline_at_ok(self, x: i32, y: i32, width: u32) -> bool {
        self.draw_region.inside_height_spec(y as int) ==> in_i32(
            self.draw_region.index_of(DrawRegion::clamp_spec(x, width, self.draw_region.width).0 as int, y as int),
        )
    }

    pub open spec fn hline_spec(self, mem: Seq<u8>, x: i32, y: i32, width: u32, color: u16) -> Seq<u8> {
        let t = translate_spec(self.camera, x, y);
        self.hline_at(mem, t.0, t.1, width, color)
    }

    pub open spec fn hline_ok(self, x: i32, y: i32, width: u32) -> bool {
        let t = translate_spec(self.camera, x, y);
        self.hline_at_ok(t.0, t.1, width)
    }

    /// A vertical line at screen coordinates: nothing when its top is outside the region,
    /// otherwise its rows inside the region. Only the rows are checked: in a column inside the
    /// region these are the line's own points; in a column outside it, each is written at the
    /// index its position gives, which lands in a neighbouring row, when that index is inside
    /// `mem`.
    pub open spec fn vline_at(self, mem: Seq<u8>, x: i32, y: i32, height: u32, color: u16) -> Seq<u8> {
        if !self.draw_region.inside_height_spec(y as int) {
            mem
        } else {
            let c = DrawRegion::clamp_spec(y, height, self.draw_region.height);
            if self.draw_region.inside_width_spec(x as int) {
                self.run_v(mem, x as int, c.0 as int, c.1 as nat, color)
            } else {
                self.run_v_at_index(mem, x as int, c.0 as int, c.1 as nat, color)
            }
        }
    }

    pub open spec fn vline_spec(self, mem: Seq<u8>, x: i32, y: i32, height: u32, color: u16) -> Seq<u8> {
        let t = translate_spec(self.camera, x, y);
        self.vline_at(mem, t.0, t.1, height, color)
    }

    proof fn lemma_plot_inside(self, mem: Seq<u8>, x: int, y: int, color: u16)
        requires
            self.ready(mem),
            self.draw_region.inside(x, y),
        ensures
            self.plot(mem, x, y, color) == mem.update(x + y * self.draw_region.width, fill_pixel(self.fill_pattern@, x, y, color)),
            0 <= x + y * self.draw_region.width < mem.len(),
            self.draw_region.index_of(x, y) == x + y * self.draw_region.width,
            0 <= y * self.draw_region.width <= i32::MAX,
    {
        let w = self.draw_region.width;
        assert(w <= 0x7fff_ffff ==> w as i32 == w) by (bit_vector);
        self.draw_region.lemma_inside_index(x, y);
    }

    pub fn draw_pixel_untranslated(&mut self, memory: &mut [u8], x: i32, y: i32, color: Color)
        requires
            old(self).ready(old(memory)@),
        ensures
            final(memory)@ == old(self).plot(old(memory)@, x as int, y as int, color),
            final(memory)@.len() == old(memory)@.len(),
            *final(self) == *old(self),
    {
        proof {
            if self.draw_region.inside(x as int, y as int) {
                self.lemma_plot_inside(memory@, x as int, y as int, color);
            }
        }
        let color = self.fill_at(x, y, color);
        self.draw_region.set_pixel(memory, x, y, color);
    }

    pub fn draw_pixel(&mut self, memory: &mut [u8], x: i32, y: i32, color: Color)
        requires
            old(self).ready(old(memory)@),
        ensures
            final(memory)@ == old(self).pixel_spec(old(memory)@, x, y, color),
            final(memory)@.len() == old(memory)@.len(),
            *final(self) == *old(self),
    {
        let (x, y) = self.camera.translate(x, y);
        self.draw_pixel_untranslated(memory, x, y, color);
    }

    // Checks is the pixel is the transparency color.
    pub fn draw_pixel_checked(&mut self, memory: &mut [u8], x: i32, y: i32, color: Color)
        requires
            old(self).ready(old(memory)@),
        ensures
            final(memory)@ == (if color % 256 != old(self).transparency_color {
                old(self).pixel_spec(old(memory)@, x, y, color)
            } else {
                old(memory)@
            }),
            final(memory)@.len() == old(memory)@.len(),
            *final(self) == *old(self),
    {
        assert(color as u8 == color % 256) by (bit_vector);
        if color as u8 != self.transparency_color {
            self.draw_pixel(memory, x, y, color);
        }
    }

    pub fn draw_hline(&mut self, memory: &mut [u8], x: i32, y: i32, width: u32, color: Color)
        requires
            old(self).ready(old(memory)@),
            old(self).hline_ok(x, y, width),
        ensures
            final(memory)@ == old(self).hline_spec(old(memory)@, x, y, width, color),
            final(memory)@.len() == old(memory)@.len(),
            *final(self) == *old(self),
    {
        let ghost mem0 = memory@;
        let (x, y) = self.camera.translate(x, y);

        if !self.draw_region.inside_height(y) {
            return;
        }

        let (x, width, _) = self.draw_region.clamp_width(x, width);

        proof {
            let w = self.draw_region.width;
            let h = self.draw_region.height;
            assert(w <= 0x7fff_ffff ==> w as i32 == w) by (bit_vector);
            assert(h <= 0x7fff_ffff ==> h as i32 == h) by (bit_vector);
            assert(0 <= y * w <= w * h) by (nonlinear_arith)
                requires
                    0 <= y < h,
            ;
        }
        let index = self.draw_region.as_index(x, y);
        let n: usize = width as usize;
        for i in 0..n
            invariant
                self.ready(mem0),
                memory@.len() == mem0.len(),
                memory@ == self.run_h(mem0, x as int, y as int, i as nat, color),
                self.draw_region.inside_height_spec(y as int),
                0 <= x,
                index == x + y * self.draw_region.width,
                n == 0 || x + n <= self.draw_region.width,
        {
            proof {
                self.lemma_plot_inside(memory@, x + i, y as int, color);
                lemma_usize_mod8(y);
            }
            let pixel = self.get_fill_pattern_pixel(x as usize + i, y as usize, color);
            memory[index + i] = pixel;
        }
    }

    pub fn draw_vline(&mut self, memory: &mut [u8], x: i32, y: i32, height: u32, color: Color)
        requires
            old(self).ready(old(memory)@),
        ensures
            final(memory)@ == old(self).vline_spec(old(memory)@, x, y, height, color),
            final(memory)@.len() == old(memory)@.len(),
            *final(self) == *old(self),
    {
        let ghost mem0 = memory@;
        let (x, y) = self.camera.translate(x, y);

        if !self.draw_region.inside_height(y) {
            return;
        }
        let (y, height, _) = self.draw_region.clamp_height(y, height);
        let ghost self0 = *self;

        if !self.draw_region.inside_width(x) {
            // Each point is written at the index its position gives, where that is in memory.
            let w = self.draw_region.width;
            for i in 0..height
                invariant
                    memory@.len() == mem0.len(),
                    memory@ == self.run_v_at_index(mem0, x as int, y as int, i as nat, color),
                    0 <= y,
                    y + height <= self.draw_region.height,
                    self.draw_region.height <= 0x7fff_ffff,
                    self.draw_region.width == w,
                    *self == self0,
            {
                let yi = y as i64 + i as i64;
                assert(0 <= yi < 0x8000_0000);
                assert(0 <= yi * w <= 0x7fff_ffff * 0xffff_ffff) by (nonlinear_arith)
                    requires
                        0 <= yi < 0x8000_0000,
                        w <= 0xffff_ffff,
                ;
                let index: i64 = x as i64 + yi * w as i64;
                assert(yi as i32 == y + i);
                let pixel = self.fill_at(x, yi as i32, color);
                let ghost before = memory@;
                assert(index == x + (y + i) * self.draw_region.width);
                if 0 <= index && (index as u64) < (memory.len() as u64) {
                    memory[index as usize] = pixel;
                }
                assert(memory@ == self.plot_at_index(before, x as int, y + i, color));
            }
            return;
        }

        proof {
            let h = self.draw_region.height;
            assert(h <= 0x7fff_ffff ==> h as i32 == h) by (bit_vector);
        }
        for i in 0..height
            invariant
                self.ready(mem0),
                self.ready(memory@),
                memory@.len() == mem0.len(),
                memory@ == self.run_v(mem0, x as int, y as int, i as nat, color),
                self.draw_region.inside_width_spec(x as int),
                0 <= y,
                height <= self.draw_region.height - y,
                self.draw_region.height as i32 == self.draw_region.height,
                *self == self0,
        {
            let y = y + i as i32;
            let pixel = self.fill_at(x, y, color);
            proof {
                self.lemma_plot_inside(memory@, x as int, y as int, color);
            }
            self.draw_region.set_pixel_unchecked(memory, x, y, pixel);
        }
    }

    pub fn draw_rectangle(
        &mut self,
        memory: &mut [u8],
        x: i32,
        y: i32,
        width: u32,
        height: u32,
        color: Color,
    )
        requires
            old(self).ready(old(memory)@),
            in_i32(y + (sat_dec(height) as i32)),
            in_i32(x + (sat_dec(width) as i32)),
            old(self).hline_ok(x, y, width),
            old(self).hline_ok(x, (y + (sat_dec(height) as i32)) as i32, width),
        ensures
            final(memory)@ == old(self).rect_spec(old(memory)@, x, y, width, height, color),
            final(memory)@.len() == old(memory)@.len(),
            *final(self) == *old(self),
    {
        self.draw_hline(memory, x, y, width, color);
        self.draw_vline(memory, x, y, height, color);
        self.draw_hline(memory, x, y + height.saturating_sub(1) as i32, width, color);
        self.draw_vline(memory, x + width.saturating_sub(1) as i32, y, height, color);
    }

    pub fn draw_filled_rectangle(
        &mut self,
        memory: &mut [u8],
        x: i32,
        y: i32,
        width: u32,
        height: u32,
        color: Color,
    )
        requires
            old(self).ready(old(memory)@),
            old(self).filled_rect_ok(x, y, width, height),
        ensures
            final(memory)@ == old(self).filled_rect_spec(old(memory)@, x, y, width, height, color),
            final(memory)@.len() == old(memory)@.len(),
            *final(self) == *old(self),
    {
        let ghost mem0 = memory@;
        let ghost self0 = *self;
        let (_, ty) = self.camera.translate(x, y);
        let (_, height, offset) = self.draw_region.clamp_height(ty, height);
        let end: u64 = offset as u64 + height as u64;

        let mut i: u64 = offset as u64;
        while i < end
            invariant
                *self == self0,
                self.ready(mem0),
                memory@.len() == mem0.len(),
                memory@ == self.hlines(mem0, x, y, offset as int, i as int, width, color),
                offset <= i <= end,
                end == offset + height,
                forall|j: int| offset <= j < end ==> #[trigger] in_i32(y + j)
                    && self.hline_ok(x, (y + j) as i32, width),
            decreases end - i,
        {
            assert(in_i32(y + i));
            let row = (y as i64 + i as i64) as i32;
            self.draw_hline(memory, x, row, width, color);
            i = i + 1;
        }
    }
}

impl GraphicsState {
    /// The outline of a rectangle: its top edge, left edge, bottom edge and right edge, in
    /// that order.
    pub open spec fn rect_spec(
        self,
        mem: Seq<u8>,
        x: i32,
        y: i32,
        width: u32,
        height: u32,
        color: u16,
    ) -> Seq<u8> {
        let y2 = (y + (sat_dec(height) as i32)) as i32;
        let x2 = (x + (sat_dec(width) as i32)) as i32;
        let m1 = self.hline_spec(mem, x, y, width, color);
        let m2 = self.vline_spec(m1, x, y, height, color);
        let m3 = self.hline_spec(m2, x, y2, width, color);
        self.vline_spec(m3, x2, y, height, color)
    }

    /// The horizontal lines at rows `y + from .. y + to` (world coordinates), in order.
    pub open spec fn hlines(
        self,
        mem: Seq<u8>,
        x: i32,
        y: i32,
        from: int,
        to: int,
        width: u32,
        color: u16,
    ) -> Seq<u8>
        decreases to - from,
    {
        if to <= from {
            mem
        } else {
            self.hline_spec(
                self.hlines(mem, x, y, from, to - 1, width, color),
                x,
                (y + (to - 1)) as i32,
                width,
                color,
            )
        }
    }

    /// A filled rectangle: the rows of it that the region's height clamp keeps, each as a
    /// horizontal line.
    pub open spec fn filled_rect_spec(
        self,
        mem: Seq<u8>,
        x: i32,
        y: i32,
        width: u32,
        height: u32,
        color: u16,
    ) -> Seq<u8> {
        let ty = translate_spec(self.camera, x, y).1;
        let c = DrawRegion::clamp_spec(ty, height, self.draw_region.height);
        self.hlines(mem, x, y, c.2 as int, c.2 + c.1, width, color)
    }

    pub open spec fn filled_rect_ok(self, x: i32, y: i32, width: u32, height: u32) -> bool {
        let ty = translate_spec(self.camera, x, y).1;
        let c = DrawRegion::clamp_spec(ty, height, self.draw_region.height);
        forall|j: int| c.2 <= j < c.2 + c.1 ==> #[trigger] in_i32(y + j) && self.hline_ok(x, (y + j) as i32, width)
    }
}

/// The points that the line loop visits from column `x` up to, not including, `x_end`, on row
/// `y` with slope error `err` and doubled rise `m`; `None` when some step overflows `i32`.
pub open spec fn line_run(x: int, x_end: int, y: int, err: int, m: int) -> Option<Seq<(i32, i32)>>
    decreases x_end - x,
{
    if x >= x_end {
        Some(Seq::empty())
    } else {
        let e1 = err + m;
        let y2 = if e1 >= 0 { y + 1 } else { y };
        let e2 = if e1 >= 0 { e1 - m } else { e1 };
        if !in_i32(e1) || !in_i32(y2) || !in_i32(e2) {
            None
        } else {
            match line_run(x + 1, x_end, y2, e2, m) {
                Some(rest) => Some(seq![(x as i32, y as i32)] + rest),
                None => None,
            }
        }
    }
}

/// The points of the line between two world points, in screen coordinates; `None` when the
/// computation overflows `i32`.
pub open spec fn line_points_spec(camera: Camera, x1: i32, y1: i32, x2: i32, y2: i32) -> Option<Seq<(i32, i32)>> {
    let a = translate_spec(camera, x1, y1);
    let b = translate_spec(camera, x2, y2);
    let rise = b.1 - a.1;
    let m = rise * 2;
    let run = b.0 - a.0;
    if !in_i32(rise) || !in_i32(m) || !in_i32(run) || !in_i32(m - run) || !in_i32(b.0 + 1) {
        None
    } else {
        line_run(a.0 as int, b.0 + 1, a.1 as int, m - run, m)
    }
}

impl GraphicsState {
    /// World pixels drawn one after the other.
    pub open spec fn pixels(self, mem: Seq<u8>, pts: Seq<(i32, i32)>, color: u16) -> Seq<u8>
        decreases pts.len(),
    {
        if pts.len() == 0 {
            mem
        } else {
            self.pixel_spec(self.pixels(mem, pts.drop_last(), color), pts.last().0, pts.last().1, color)
        }
    }

    /// Iterates the points of a line from `(x1, y1)` towards `(x2, y2)`, stepping one column
    /// at a time from the first point's column to the second's, in screen coordinates.
    pub fn line_points(&self, x1: i32, y1: i32, x2: i32, y2: i32) -> (pts: Vec<(i32, i32)>)
        requires
            line_points_spec(self.camera, x1, y1, x2, y2) is Some,
        ensures
            pts@ == line_points_spec(self.camera, x1, y1, x2, y2)->0,
    {
        let (x1, y1) = self.camera.translate(x1, y1);
        let (x2, y2) = self.camera.translate(x2, y2);

        let m_new = (y2 - y1) * 2;
        let mut slope_error_new = m_new - (x2 - x1);

        let ghost err0 = slope_error_new as int;
        let mut pts: Vec<(i32, i32)> = Vec::new();
        let mut y = y1;
        let end = x2 + 1;
        let mut x = x1;
        while x < end
            invariant
                m_new == (y2 - y1) * 2,
                line_run(x as int, end as int, y as int, slope_error_new as int, m_new as int) is Some,
                pts@ + line_run(x as int, end as int, y as int, slope_error_new as int, m_new as int)->0
                    == line_run(x1 as int, end as int, y1 as int, err0, m_new as int)->0,
            decreases end - x,
        {
            pts.push((x, y));

            slope_error_new = slope_error_new + m_new;

            if slope_error_new >= 0 {
                y = y + 1;
                slope_error_new = slope_error_new - (y2 - y1) * 2;
            }
            proof {
                let next = line_run(x as int + 1, end as int, y as int, slope_error_new as int, m_new as int)->0;
                assert(pts@ + next =~= pts@.drop_last() + (seq![(x, pts@.last().1)] + next));
            }
            x = x + 1;
        }
        proof {
            assert(pts@ + Seq::<(i32, i32)>::empty() =~= pts@);
        }
        pts
    }

    pub fn draw_line(&mut self, memory: &mut [u8], x1: i32, y1: i32, x2: i32, y2: i32, color: Color)
        requires
            old(self).ready(old(memory)@),
            line_points_spec(old(self).camera, x1, y1, x2, y2) is Some,
        ensures
            final(memory)@ == old(self).pixels(
                old(memory)@,
                line_points_spec(old(self).camera, x1, y1, x2, y2)->0,
                color,
            ),
            final(memory)@.len() == old(memory)@.len(),
            *final(self) == *old(self),
    {
        let pts = self.line_points(x1, y1, x2, y2);
        self.draw_pixels(memory, &pts, color);
    }

    /// Draws each world point in turn.
    fn draw_pixels(&mut self, memory: &mut [u8], pts: &Vec<(i32, i32)>, color: Color)
        requires
            old(self).ready(old(memory)@),
        ensures
            final(memory)@ == old(self).pixels(old(memory)@, pts@, color),
            final(memory)@.len() == old(memory)@.len(),
            *final(self) == *old(self),
    {
        let ghost mem0 = memory@;
        let ghost self0 = *self;
        for i in 0..pts.len()
            invariant
                *self == self0,
                self.ready(mem0),
                memory@.len() == mem0.len(),
                memory@ == self.pixels(mem0, pts@.take(i as int), color),
        {
            let (px, py) = pts[i];
            self.draw_pixel(memory, px, py, color);
            proof {
                assert(pts@.take(i + 1).drop_last() =~= pts@.take(i as int));
            }
        }
        proof {
            assert(pts@.take(pts@.len() as int) =~= pts@);
        }
    }
}

/// How far the octant loop at `(x, y)` still has to go.
pub open spec fn octant_measure(x: int, y: int) -> nat {
    if -y - x > 0 { (-y - x) as nat } else { 0 }
}

/// The points that the circle loop visits from `(x, y)` with decision value `p`, each taken
/// after the step that moves it; `None` when some step overflows `i32`.
pub open spec fn octant_run(x: int, y: int, p: int) -> Option<Seq<(i32, i32)>>
    decreases octant_measure(x, y),
{
    if !(x < -y) {
        Some(Seq::empty())
    } else {
        let y2 = if p > 0 { y + 1 } else { y };
        let step = if p > 0 { 2 * (x + y2) + 1 } else { 2 * x + 1 };
        let p2 = p + step;
        let fits = if p > 0 {
            in_i32(y2) && in_i32(x + y2) && in_i32(2 * (x + y2)) && in_i32(step) && in_i32(p2)
        } else {
            in_i32(2 * x) && in_i32(step) && in_i32(p2)
        };
        if !fits || !in_i32(x + 1) {
            None
        } else {
            match octant_run(x + 1, y2, p2) {
                Some(rest) => Some(seq![(x as i32, y2 as i32)] + rest),
                None => None,
            }
        }
    }
}

/// The points of the top-top-right octant of a circle of the given radius, as the drawing
/// loop visits them: `x` is never negative and `y` never positive.
pub open spec fn octant_points_spec(radius: u32) -> Option<Seq<(i32, i32)>> {
    let r = radius as i32;
    if r == i32::MIN {
        None
    } else {
        octant_run(0, -r, -r)
    }
}

impl GraphicsState {
    /// Encapsulates the logic for drawing the pixels on a circle.
    /// Both x and y are for the top-top-right octant. Meaning: x is always positive, and y is
    /// always negative.
    pub fn draw_circle_octant_points(&self, radius: u32) -> (pts: Vec<(i32, i32)>)
        requires
            octant_points_spec(radius) is Some,
        ensures
            pts@ == octant_points_spec(radius)->0,
    {
        let ghost radius0 = radius;
        let radius = radius as i32;
        let mut x: i32 = 0;
        let mut y: i32 = -radius;
        let mut p: i32 = -radius;
        let mut pts: Vec<(i32, i32)> = Vec::new();

        while x < -y
            invariant
                y > i32::MIN,
                octant_run(x as int, y as int, p as int) is Some,
                pts@ + octant_run(x as int, y as int, p as int)->0 == octant_points_spec(radius0)->0,
            decreases octant_measure(x as int, y as int),
        {
            if p > 0 {
                y = y + 1;
                p = p + (2 * (x + y) + 1);
            } else {
                p = p + (2 * x + 1);
            }

            pts.push((x, y));
            proof {
                let next = octant_run(x as int + 1, y as int, p as int)->0;
                assert(pts@ + next =~= pts@.drop_last() + (seq![(x, y)] + next));
            }

            x = x + 1;
        }
        proof {
            assert(pts@ + Seq::<(i32, i32)>::empty() =~= pts@);
        }
        pts
    }

    pub fn draw_circle(&mut self, memory: &mut [u8], cx: i32, cy: i32, radius: u32, color: Color)
        requires
            old(self).ready(old(memory)@),
            octant_points_spec(radius) is Some,
            forall|i: int| 0 <= i < octant_points_spec(radius)->0.len() ==> circle_point_ok(
                translate_spec(old(self).camera, cx, cy),
                #[trigger] octant_points_spec(radius)->0[i],
            ),
        ensures
            final(memory)@ == fold_points(
                old(memory)@,
                octant_points_spec(radius)->0,
                |m: Seq<u8>, pt: (i32, i32)| old(self).circle_point(m, translate_spec(old(self).camera, cx, cy), pt, color),
            ),
            final(memory)@.len() == old(memory)@.len(),
            *final(self) == *old(self),
    {
        let ghost mem0 = memory@;
        let ghost self0 = *self;
        let ghost f = |m: Seq<u8>, pt: (i32, i32)| self0.circle_point(m, translate_spec(self0.camera, cx, cy), pt, color);
        let pts = self.draw_circle_octant_points(radius);
        for i in 0..pts.len()
            invariant
                *self == self0,
                self.ready(mem0),
                memory@.len() == mem0.len(),
                memory@ == fold_points(mem0, pts@.take(i as int), f),
                forall|j: int| 0 <= j < pts@.len() ==> circle_point_ok(
                    translate_spec(self.camera, cx, cy),
                    #[trigger] pts@[j],
                ),
                f == (|m: Seq<u8>, pt: (i32, i32)| self0.circle_point(m, translate_spec(self0.camera, cx, cy), pt, color)),
        {
            let (x, y) = pts[i];
            assert(circle_point_ok(translate_spec(self.camera, cx, cy), pts@[i as int]));
            let (cx, cy) = self.camera.translate(cx, cy);

            self.draw_pixel_untranslated(memory, cx + x, cy + y, color);
            self.draw_pixel_untranslated(memory, cx - x, cy + y, color);
            self.draw_pixel_untranslated(memory, cx + x, cy - y, color);
            self.draw_pixel_untranslated(memory, cx - x, cy - y, color);
            self.draw_pixel_untranslated(memory, cx + y, cy + x, color);
            self.draw_pixel_untranslated(memory, cx - y, cy + x, color);
            self.draw_pixel_untranslated(memory, cx + y, cy - x, color);
            self.draw_pixel_untranslated(memory, cx - y, cy - x, color);
            proof {
                assert(pts@.take(i + 1).drop_last() =~= pts@.take(i as int));
            }
        }
        proof {
            assert(pts@.take(pts@.len() as int) =~= pts@);
        }
    }
}

/// Points folded into memory one after the other with `f`.
pub open spec fn fold_points(
    mem: Seq<u8>,
    pts: Seq<(i32, i32)>,
    f: spec_fn(Seq<u8>, (i32, i32)) -> Seq<u8>,
) -> Seq<u8>
    decreases pts.len(),
{
    if pts.len() == 0 {
        mem
    } else {
        f(fold_points(mem, pts.drop_last(), f), pts.last())
    }
}

/// The eight mirrored coordinates of an octant point around a center fit in `i32`.
pub open spec fn circle_point_ok(c: (i32, i32), pt: (i32, i32)) -> bool {
    &&& in_i32(c.0 + pt.0)
    &&& in_i32(c.0 - pt.0)
    &&& in_i32(c.1 + pt.1)
    &&& in_i32(c.1 - pt.1)
    &&& in_i32(c.0 + pt.1)
    &&& in_i32(c.0 - pt.1)
    &&& in_i32(c.1 + pt.0)
    &&& in_i32(c.1 - pt.0)
}

impl GraphicsState {
    /// The eight mirror images of an octant point around the screen center `c`, plotted in
    /// the order the circle is drawn.
    pub open spec fn circle_point(self, mem: Seq<u8>, c: (i32, i32), pt: (i32, i32), color: u16) -> Seq<u8> {
        let (cx, cy) = (c.0 as int, c.1 as int);
        let (x, y) = (pt.0 as int, pt.1 as int);
        let m1 = self.plot(mem, cx + x, cy + y, color);
        let m2 = self.plot(m1, cx - x, cy + y, color);
        let m3 = self.plot(m2, cx + x, cy - y, color);
        let m4 = self.plot(m3, cx - x, cy - y, color);
        let m5 = self.plot(m4, cx + y, cy + x, color);
        let m6 = self.plot(m5, cx - y, cy + x, color);
        let m7 = self.plot(m6, cx + y, cy - x, color);
        self.plot(m7, cx - y, cy - x, color)
    }

    /// The four horizontal spans that fill a circle for one octant point (world center).
    pub open spec fn filled_circle_point(self, mem: Seq<u8>, cx: i32, cy: i32, pt: (i32, i32), color: u16) -> Seq<u8> {
        let (x, y) = (pt.0 as int, pt.1 as int);
        let left = (cx - x) as i32;
        let width = (2 * x) as u32;
        let m1 = self.hline_spec(mem, left, (cy + y) as i32, width, color);
        let m2 = self.hline_spec(m1, left, (cy - y) as i32, width, color);
        let left2 = (cx + y) as i32;
        let width2 = (2 * -y) as u32;
        let m3 = self.hline_spec(m2, left2, (cy + x) as i32, width2, color);
        self.hline_spec(m3, left2, (cy - x) as i32, width2, color)
    }

    pub open spec fn filled_circle_point_ok(self, cx: i32, cy: i32, pt: (i32, i32)) -> bool {
        let (x, y) = (pt.0 as int, pt.1 as int);
        &&& in_i32(cx - x) && in_i32(2 * x) && in_i32(cy + y) && in_i32(cy - y)
        &&& in_i32(cx + y) && in_i32(-y) && in_i32(2 * -y) && in_i32(cy + x) && in_i32(cy - x)
        &&& self.hline_ok((cx - x) as i32, (cy + y) as i32, (2 * x) as u32)
        &&& self.hline_ok((cx - x) as i32, (cy - y) as i32, (2 * x) as u32)
        &&& self.hline_ok((cx + y) as i32, (cy + x) as i32, (2 * -y) as u32)
        &&& self.hline_ok((cx + y) as i32, (cy - x) as i32, (2 * -y) as u32)
    }

    pub fn draw_filled_circle(&mut self, memory: &mut [u8], cx: i32, cy: i32, radius: u32, color: Color)
        requires
            old(self).ready(old(memory)@),
            octant_points_spec(radius) is Some,
            forall|i: int| 0 <= i < octant_points_spec(radius)->0.len() ==>
                old(self).filled_circle_point_ok(cx, cy, #[trigger] octant_points_spec(radius)->0[i]),
        ensures
            final(memory)@ == fold_points(
                old(memory)@,
                octant_points_spec(radius)->0,
                |m: Seq<u8>, pt: (i32, i32)| old(self).filled_circle_point(m, cx, cy, pt, color),
            ),
            final(memory)@.len() == old(memory)@.len(),
            *final(self) == *old(self),
    {
        let ghost mem0 = memory@;
        let ghost self0 = *self;
        let ghost f = |m: Seq<u8>, pt: (i32, i32)| self0.filled_circle_point(m, cx, cy, pt, color);
        let pts = self.draw_circle_octant_points(radius);
        for i in 0..pts.len()
            invariant
                *self == self0,
                self.ready(mem0),
                memory@.len() == mem0.len(),
                memory@ == fold_points(mem0, pts@.take(i as int), f),
                forall|j: int| 0 <= j < pts@.len() ==> self.filled_circle_point_ok(cx, cy, #[trigger] pts@[j]),
                f == (|m: Seq<u8>, pt: (i32, i32)| self0.filled_circle_point(m, cx, cy, pt, color)),
        {
            let (x, y) = pts[i];
            assert(self.filled_circle_point_ok(cx, cy, pts@[i as int]));
            // No need for transform, it's done by draw_hline
            let px = cx - x;
            let width = (2 * x) as u32;
            self.draw_hline(memory, px, cy + y, width, color);
            self.draw_hline(memory, px, cy - y, width, color);

            let px = cx + y;
            let width = (2 * -y) as u32;
            self.draw_hline(memory, px, cy + x, width, color);
            self.draw_hline(memory, px, cy - x, width, color);
            proof {
                assert(pts@.take(i + 1).drop_last() =~= pts@.take(i as int));
            }
        }
        proof {
            assert(pts@.take(pts@.len() as int) =~= pts@);
        }
    }

    /// The eight corner pixels of a rounded rectangle for one octant point; the point itself
    /// is translated by the camera, the corner centers are not.
    pub open spec fn round_rect_point(self, mem: Seq<u8>, x: i32, y: i32, r: int, iw: int, ih: int, pt: (i32, i32), color: u16) -> Seq<u8> {
        let t = translate_spec(self.camera, pt.0, pt.1);
        let (px, py) = (t.0 as int, t.1 as int);
        // Top-left
        let (cx, cy) = (x + r, y + r);
        let m1 = self.plot(mem, cx - px, cy + py, color);
        let m2 = self.plot(m1, cx + py, cy - px, color);
        // Top-right
        let (cx, cy) = (x + iw + r, y + r);
        let m3 = self.plot(m2, cx + px, cy + py, color);
        let m4 = self.plot(m3, cx - py, cy - px, color);
        // Bottom-left
        let (cx, cy) = (x + r, y + ih + r);
        let m5 = self.plot(m4, cx - px, cy - py, color);
        let m6 = self.plot(m5, cx + py, cy + px, color);
        // Bottom-right
        let (cx, cy) = (x + iw + r, y + ih + r);
        let m7 = self.plot(m6, cx + px, cy - py, color);
        self.plot(m7, cx - py, cy + px, color)
    }

    pub open spec fn round_rect_point_ok(self, x: i32, y: i32, r: int, iw: int, ih: int, pt: (i32, i32)) -> bool {
        let t = translate_spec(self.camera, pt.0, pt.1);
        let (px, py) = (t.0 as int, t.1 as int);
        &&& in_i32(x + r - px) && in_i32(y + r + py) && in_i32(x + r + py) && in_i32(y + r - px)
        &&& in_i32(x + iw + r + px) && in_i32(x + iw + r - py)
        &&& in_i32(y + ih + r - py) && in_i32(y + ih + r + px)
    }
}

/// The radius a rounded rectangle is drawn with: at most half its shorter side.
pub open spec fn clamped_radius(width: u32, height: u32, radius: u32) -> int {
    let half = (if width <= height { width } else { height }) / 2;
    if radius <= half { radius as int } else { half as int }
}

/// A side of a rounded rectangle less its two corners.
pub open spec fn inner_len(len: u32, r: int) -> int {
    if len >= 2 * r { len - 2 * r } else { 0 }
}

impl GraphicsState {
    pub open spec fn round_rect_ok(self, x: i32, y: i32, width: u32, height: u32, radius: u32) -> bool {
        let r = clamped_radius(width, height, radius);
        let iw = (inner_len(width, r) as u32) as i32 as int;
        let ih = (inner_len(height, r) as u32) as i32 as int;
        &&& octant_points_spec(r as u32) is Some
        &&& forall|i: int| 0 <= i < octant_points_spec(r as u32)->0.len() ==>
            self.round_rect_point_ok(x, y, r, iw, ih, #[trigger] octant_points_spec(r as u32)->0[i])
        &&& in_i32(x + r) && in_i32(y + r) && in_i32(x + iw) && in_i32(x + iw + r)
        &&& in_i32(y + ih) && in_i32(y + ih + r) && in_i32(y + ih + r * 2) && in_i32(x + iw + r * 2)
        &&& in_i32(r * 2)
        &&& self.hline_ok((x + r) as i32, y, inner_len(width, r) as u32)
        &&& self.hline_ok((x + r) as i32, (y + ih + r * 2) as i32, inner_len(width, r) as u32)
    }

    /// A rounded rectangle: its corner arcs, then its top and bottom edges, then its left and
    /// right edges.
    pub open spec fn round_rect_spec(self, mem: Seq<u8>, x: i32, y: i32, width: u32, height: u32, radius: u32, color: u16) -> Seq<u8> {
        let r = clamped_radius(width, height, radius);
        let iw_u = inner_len(width, r) as u32;
        let ih_u = inner_len(height, r) as u32;
        let iw = iw_u as i32 as int;
        let ih = ih_u as i32 as int;
        let m = fold_points(
            mem,
            octant_points_spec(r as u32)->0,
            |m: Seq<u8>, pt: (i32, i32)| self.round_rect_point(m, x, y, r, iw, ih, pt, color),
        );
        let m1 = self.hline_spec(m, (x + r) as i32, y, iw_u, color);
        let m2 = self.hline_spec(m1, (x + r) as i32, (y + ih + r * 2) as i32, iw_u, color);
        let m3 = self.vline_spec(m2, x, (y + r) as i32, ih_u, color);
        self.vline_spec(m3, (x + iw + r * 2) as i32, (y + r) as i32, ih_u, color)
    }

    pub fn draw_round_rectangle(
        &mut self,
        memory: &mut [u8],
        x: i32,
        y: i32,
        width: u32,
        height: u32,
        radius: u32,
        color: Color,
    )
        requires
            old(self).ready(old(memory)@),
            old(self).round_rect_ok(x, y, width, height, radius),
        ensures
            final(memory)@ == old(self).round_rect_spec(old(memory)@, x, y, width, height, radius, color),
            final(memory)@.len() == old(memory)@.len(),
            *final(self) == *old(self),
    {
        let ghost mem0 = memory@;
        let ghost self0 = *self;
        // Clamp radius to prevent visual glitches
        let shorter = if width < height { width } else { height };
        let half = shorter / 2;
        let radius: u32 = if radius < half { radius } else { half };
        let ghost r = radius as int;
        let radius = radius as i32;
        let inner_width = width.saturating_sub(2 * radius as u32);
        let inner_height = height.saturating_sub(2 * radius as u32);
        let ghost iw = inner_width as i32 as int;
        let ghost ih = inner_height as i32 as int;
        let ghost f = |m: Seq<u8>, pt: (i32, i32)| self0.round_rect_point(m, x, y, r, iw, ih, pt, color);

        let pts = self.draw_circle_octant_points(radius as u32);
        for i in 0..pts.len()
            invariant
                *self == self0,
                self.ready(mem0),
                memory@.len() == mem0.len(),
                memory@ == fold_points(mem0, pts@.take(i as int), f),
                forall|j: int| 0 <= j < pts@.len() ==> self.round_rect_point_ok(x, y, r, iw, ih, #[trigger] pts@[j]),
                f == (|m: Seq<u8>, pt: (i32, i32)| self0.round_rect_point(m, x, y, r, iw, ih, pt, color)),
                radius == r,
                in_i32(x + r),
                in_i32(y + r),
                in_i32(x + iw),
                in_i32(x + iw + r),
                in_i32(y + ih),
                in_i32(y + ih + r),
                inner_width as i32 == iw,
                inner_height as i32 == ih,
        {
            let (point_x, point_y) = pts[i];
            assert(self.round_rect_point_ok(x, y, r, iw, ih, pts@[i as int]));
            let (point_x, point_y) = self.camera.translate(point_x, point_y);

            // Top-left
            let (cx, cy) = (x + radius, y + radius);
            self.draw_pixel_untranslated(memory, cx - point_x, cy + point_y, color);
            self.draw_pixel_untranslated(memory, cx + point_y, cy - point_x, color);

            // Top-right
            let (cx, cy) = (x + inner_width as i32 + radius, y + radius);
            self.draw_pixel_untranslated(memory, cx + point_x, cy + point_y, color);
            self.draw_pixel_untranslated(memory, cx - point_y, cy - point_x, color);

            // Bottom-left
            let (cx, cy) = (x + radius, y + inner_height as i32 + radius);
            self.draw_pixel_untranslated(memory, cx - point_x, cy - point_y, color);
            self.draw_pixel_untranslated(memory, cx + point_y, cy + point_x, color);

            // Bottom-right
            let (cx, cy) = (x + inner_width as i32 + radius, y + inner_height as i32 + radius);
            self.draw_pixel_untranslated(memory, cx + point_x, cy - point_y, color);
            self.draw_pixel_untranslated(memory, cx - point_y, cy + point_x, color);
            proof {
                assert(pts@.take(i + 1).drop_last() =~= pts@.take(i as int));
            }
        }
        proof {
            assert(pts@.take(pts@.len() as int) =~= pts@);
        }

        // Draw connecting lines
        self.draw_hline(memory, x + radius, y, inner_width, color);
        self.draw_hline(memory, x + radius, y + inner_height as i32 + radius * 2, inner_width, color);
        self.draw_vline(memory, x, y + radius, inner_height, color);
        self.draw_vline(memory, x + inner_width as i32 + radius * 2, y + radius, inner_height, color);
    }

    /// The four spans that fill the rounded corners of a rectangle for one octant point.
    pub open spec fn filled_round_rect_point(self, mem: Seq<u8>, x: i32, y: i32, r: int, iw: int, ih: int, pt: (i32, i32), color: u16) -> Seq<u8> {
        let (px, py) = (pt.0 as int, pt.1 as int);
        let cx = x + r;
        let w1 = (iw + 2 * px) as u32;
        let m1 = self.hline_spec(mem, (cx - px) as i32, (y + r + py) as i32, w1, color);
        let m2 = self.hline_spec(m1, (cx - px) as i32, (y + ih + r - py) as i32, w1, color);
        let w2 = (iw - 2 * py) as u32;
        let m3 = self.hline_spec(m2, (cx + py) as i32, (y + r - px) as i32, w2, color);
        self.hline_spec(m3, (cx + py) as i32, (y + ih + r + px) as i32, w2, color)
    }

    pub open spec fn filled_round_rect_point_ok(self, x: i32, y: i32, r: int, iw: int, ih: int, pt: (i32, i32)) -> bool {
        let (px, py) = (pt.0 as int, pt.1 as int);
        let cx = x + r;
        &&& in_i32(cx - px) && in_i32(cx + py) && in_i32(2 * px) && in_i32(2 * py)
        &&& in_i32(iw + 2 * px) && in_i32(iw - 2 * py)
        &&& in_i32(y + r + py) && in_i32(y + ih + r - py) && in_i32(y + r - px) && in_i32(y + ih + r + px)
        &&& self.hline_ok((cx - px) as i32, (y + r + py) as i32, (iw + 2 * px) as u32)
        &&& self.hline_ok((cx - px) as i32, (y + ih + r - py) as i32, (iw + 2 * px) as u32)
        &&& self.hline_ok((cx + py) as i32, (y + r - px) as i32, (iw - 2 * py) as u32)
        &&& self.hline_ok((cx + py) as i32, (y + ih + r + px) as i32, (iw - 2 * py) as u32)
    }

    pub open spec fn filled_round_rect_ok(self, x: i32, y: i32, width: u32, height: u32, radius: u32) -> bool {
        let r = clamped_radius(width, height, radius);
        let iw = (inner_len(width, r) as u32) as i32 as int;
        let ih = (inner_len(height, r) as u32) as i32 as int;
        &&& octant_points_spec(r as u32) is Some
        &&& forall|i: int| 0 <= i < octant_points_spec(r as u32)->0.len() ==>
            self.filled_round_rect_point_ok(x, y, r, iw, ih, #[trigger] octant_points_spec(r as u32)->0[i])
        &&& in_i32(x + r) && in_i32(y + r) && in_i32(y + ih) && in_i32(y + ih + r)
        &&& self.filled_rect_ok(x, (y + r) as i32, width, inner_len(height, r) as u32)
    }

    /// A filled rounded rectangle: the spans of its rounded ends, then the rectangle between
    /// them.
    pub open spec fn filled_round_rect_spec(self, mem: Seq<u8>, x: i32, y: i32, width: u32, height: u32, radius: u32, color: u16) -> Seq<u8> {
        let r = clamped_radius(width, height, radius);
        let iw = (inner_len(width, r) as u32) as i32 as int;
        let ih_u = inner_len(height, r) as u32;
        let ih = ih_u as i32 as int;
        let m = fold_points(
            mem,
            octant_points_spec(r as u32)->0,
            |m: Seq<u8>, pt: (i32, i32)| self.filled_round_rect_point(m, x, y, r, iw, ih, pt, color),
        );
        self.filled_rect_spec(m, x, (y + r) as i32, width, ih_u, color)
    }

    #[verifier::rlimit(40)]
    pub fn draw_filled_round_rectangle(
        &mut self,
        memory: &mut [u8],
        x: i32,
        y: i32,
        width: u32,
        height: u32,
        radius: u32,
        color: Color,
    )
        requires
            old(self).ready(old(memory)@),
            old(self).filled_round_rect_ok(x, y, width, height, radius),
        ensures
            final(memory)@ == old(self).filled_round_rect_spec(old(memory)@, x, y, width, height, radius, color),
            final(memory)@.len() == old(memory)@.len(),
            *final(self) == *old(self),
    {
        let ghost mem0 = memory@;
        let ghost self0 = *self;
        // Clamp radius to prevent visual glitches
        let shorter = if width < height { width } else { height };
        let half = shorter / 2;
        let radius: u32 = if radius < half { radius } else { half };
        let ghost r = radius as int;
        let radius = radius as i32;
        let inner_width = width.saturating_sub(2 * radius as u32);
        let inner_height = height.saturating_sub(2 * radius as u32);
        let ghost iw = inner_width as i32 as int;
        let ghost ih = inner_height as i32 as int;
        let ghost f = |m: Seq<u8>, pt: (i32, i32)| self0.filled_round_rect_point(m, x, y, r, iw, ih, pt, color);

        let pts = self.draw_circle_octant_points(radius as u32);
        for i in 0..pts.len()
            invariant
                *self == self0,
                self.ready(mem0),
                memory@.len() == mem0.len(),
                memory@ == fold_points(mem0, pts@.take(i as int), f),
                forall|j: int| 0 <= j < pts@.len() ==> self.filled_round_rect_point_ok(x, y, r, iw, ih, #[trigger] pts@[j]),
                f == (|m: Seq<u8>, pt: (i32, i32)| self0.filled_round_rect_point(m, x, y, r, iw, ih, pt, color)),
                radius == r,
                in_i32(x + r),
                in_i32(y + r),
                in_i32(y + ih),
                in_i32(y + ih + r),
                inner_width as i32 == iw,
                inner_height as i32 == ih,
        {
            let (point_x, point_y) = pts[i];
            assert(self.filled_round_rect_point_ok(x, y, r, iw, ih, pts@[i as int]));
            let cx = x + radius;

            // Length 1
            let cy = y + radius;
            let px = cx - point_x;
            let line_width = (inner_width as i32 + 2 * point_x) as u32;
            self.draw_hline(memory, px, cy + point_y, line_width, color);
            let cy = y + inner_height as i32 + radius;
            self.draw_hline(memory, px, cy - point_y, line_width, color);

            // Length 2
            let cy = y + radius;
            let px = cx + point_y;
            let line_width = (inner_width as i32 - 2 * point_y) as u32;
            self.draw_hline(memory, px, cy - point_x, line_width, color);
            let cy = y + inner_height as i32 + radius;
            self.draw_hline(memory, px, cy + point_x, line_width, color);
            proof {
                assert(pts@.take(i + 1).drop_last() =~= pts@.take(i as int));
            }
        }
        proof {
            assert(pts@.take(pts@.len() as int) =~= pts@);
        }

        self.draw_filled_rectangle(memory, x, y + radius, width, inner_height, color);
    }
}

/// The state of the ellipse loops: `(x, y, decision, dx, dy)`.
pub type EllipseState = (int, int, int, int, int);

/// One step of the first ellipse loop; `None` when some intermediate value overflows `i32`.
pub open spec fn ellipse_step1(s: EllipseState, rx: int, ry: int) -> Option<EllipseState> {
    let (x, y, d1, dx, dy) = s;
    let ry2 = ry * ry;
    let two_ry = 2 * ry;
    let two_ry2 = two_ry * ry;
    let two_rx = 2 * rx;
    let two_rx2 = two_rx * rx;
    let x2 = x + 1;
    let dx2 = dx + two_ry2;
    if d1 < 0 {
        let inc = dx2 + ry2;
        let d2 = d1 + inc;
        if in_i32(x2) && in_i32(ry2) && in_i32(two_ry) && in_i32(two_ry2) && in_i32(dx2) && in_i32(inc)
            && in_i32(d2) {
            Some((x2, y, d2, dx2, dy))
        } else {
            None
        }
    } else {
        let y2 = y - 1;
        let dy2 = dy - two_rx2;
        let diff = dx2 - dy2;
        let inc = diff + ry2;
        let d2 = d1 + inc;
        if in_i32(x2) && in_i32(y2) && in_i32(ry2) && in_i32(two_ry) && in_i32(two_ry2) && in_i32(dx2)
            && in_i32(two_rx) && in_i32(two_rx2) && in_i32(dy2) && in_i32(diff) && in_i32(inc) && in_i32(d2) {
            Some((x2, y2, d2, dx2, dy2))
        } else {
            None
        }
    }
}

pub open spec fn ellipse_measure1(s: EllipseState) -> nat {
    if s.4 - s.3 > 0 { (s.4 - s.3) as nat } else { 0 }
}

/// The points the first ellipse loop visits from `s` (while `dx < dy`), and the state it
/// leaves; `None` on overflow.
pub open spec fn ellipse_run1(s: EllipseState, rx: int, ry: int) -> Option<(Seq<(i32, i32)>, EllipseState)>
    decreases ellipse_measure1(s),
{
    if !(s.3 < s.4) || ry == 0 {
        Some((Seq::empty(), s))
    } else {
        match ellipse_step1(s, rx, ry) {
            None => None,
            Some(t) => {
                proof {
                    assert(2 * ry * ry > 0) by (nonlinear_arith)
                        requires
                            ry != 0,
                    ;
                    assert((2 * ry) * ry == 2 * ry * ry) by (nonlinear_arith);
                    assert(2 * rx * rx >= 0) by (nonlinear_arith);
                    assert((2 * rx) * rx == 2 * rx * rx) by (nonlinear_arith);
                }
                match ellipse_run1(t, rx, ry) {
                    None => None,
                    Some(r) => Some((seq![(s.0 as i32, s.1 as i32)] + r.0, r.1)),
                }
            },
        }
    }
}

/// One step of the second ellipse loop; `None` on overflow.
pub open spec fn ellipse_step2(s: EllipseState, rx: int, ry: int) -> Option<EllipseState> {
    let (x, y, d2, dx, dy) = s;
    let rx2 = rx * rx;
    let two_rx = 2 * rx;
    let two_rx2 = two_rx * rx;
    let two_ry = 2 * ry;
    let two_ry2 = two_ry * ry;
    let y2 = y - 1;
    let dy2 = dy - two_rx2;
    if d2 > 0 {
        let inc = rx2 - dy2;
        let d3 = d2 + inc;
        if in_i32(y2) && in_i32(two_rx) && in_i32(two_rx2) && in_i32(dy2) && in_i32(rx2) && in_i32(inc)
            && in_i32(d3) {
            Some((x, y2, d3, dx, dy2))
        } else {
            None
        }
    } else {
        let x2 = x + 1;
        let dx2 = dx + two_ry2;
        let diff = dx2 - dy2;
        let inc = diff + rx2;
        let d3 = d2 + inc;
        if in_i32(y2) && in_i32(x2) && in_i32(two_ry) && in_i32(two_ry2) && in_i32(dx2) && in_i32(two_rx)
            && in_i32(two_rx2) && in_i32(dy2) && in_i32(diff) && in_i32(rx2) && in_i32(inc) && in_i32(d3) {
            Some((x2, y2, d3, dx2, dy2))
        } else {
            None
        }
    }
}

/// The points the second ellipse loop visits from `s` (while `y >= 0`); `None` on overflow.
pub open spec fn ellipse_run2(s: EllipseState, rx: int, ry: int) -> Option<Seq<(i32, i32)>>
    decreases (if s.1 >= 0 { s.1 + 1 } else { 0 }) as nat,
{
    if !(s.1 >= 0) {
        Some(Seq::empty())
    } else {
        match ellipse_step2(s, rx, ry) {
            None => None,
            Some(t) => match ellipse_run2(t, rx, ry) {
                None => None,
                Some(rest) => Some(seq![(s.0 as i32, s.1 as i32)] + rest),
            },
        }
    }
}

/// The first loop's starting state; `None` on overflow.
pub open spec fn ellipse_start(rx: int, ry: int) -> Option<EllipseState> {
    let ry2 = ry * ry;
    let rx2 = rx * rx;
    let rx2ry = rx2 * ry;
    let t = ry2 - rx2ry;
    let d1 = t + rx2;
    let two_ry = 2 * ry;
    let two_ry2 = two_ry * ry;
    let two_rx = 2 * rx;
    let two_rx2 = two_rx * rx;
    let dy = two_rx2 * ry;
    if in_i32(ry2) && in_i32(rx2) && in_i32(rx2ry) && in_i32(t) && in_i32(d1) && in_i32(two_ry)
        && in_i32(two_ry2) && in_i32(two_rx) && in_i32(two_rx2) && in_i32(dy) {
        Some((0, ry, d1, 0, dy))
    } else {
        None
    }
}

/// The second loop's starting decision value from the first loop's final `(x, y)`; `None` on
/// overflow.
pub open spec fn ellipse_d2(x: int, y: int, rx: int, ry: int) -> Option<int> {
    let ry2 = ry * ry;
    let xx = x * x;
    let xx_x = xx + x;
    let a = ry2 * xx_x;
    let rx2 = rx * rx;
    let ym = y - 1;
    let b1 = rx2 * ym;
    let b = b1 * ym;
    let ab = a + b;
    let c1 = rx2 * ry;
    let c = c1 * ry;
    let d2 = ab - c;
    if in_i32(ry2) && in_i32(xx) && in_i32(xx_x) && in_i32(a) && in_i32(rx2) && in_i32(ym) && in_i32(b1)
        && in_i32(b) && in_i32(ab) && in_i32(c1) && in_i32(c) && in_i32(d2) {
        Some(d2)
    } else {
        None
    }
}

/// The points of one quadrant of an ellipse, as the two drawing loops visit them; `None`
/// when the computation overflows `i32`.
pub open spec fn ellipse_points_spec(rx: i32, ry: i32) -> Option<Seq<(i32, i32)>> {
    match ellipse_start(rx as int, ry as int) {
        None => None,
        Some(s0) => match ellipse_run1(s0, rx as int, ry as int) {
            None => None,
            Some(r1) => {
                let s1 = r1.1;
                match ellipse_d2(s1.0, s1.1, rx as int, ry as int) {
                    None => None,
                    Some(d2) => match ellipse_run2((s1.0, s1.1, d2, s1.3, s1.4), rx as int, ry as int) {
                        None => None,
                        Some(p2) => Some(r1.0 + p2),
                    },
                }
            },
        },
    }
}

impl GraphicsState {
    /// The points of one quadrant of an ellipse, by the midpoint algorithm: first while the
    /// curve is flatter than a diagonal, then until it reaches the horizontal axis.
    pub fn draw_ellipse_quardrant_points(&self, x_radius: i32, y_radius: i32) -> (pts: Vec<(i32, i32)>)
        requires
            ellipse_points_spec(x_radius, y_radius) is Some,
        ensures
            pts@ == ellipse_points_spec(x_radius, y_radius)->0,
    {
        let ghost rx = x_radius as int;
        let ghost ry = y_radius as int;
        let mut x: i32 = 0;
        let mut y: i32 = y_radius;

        // Initial decision parameter of region 1
        let mut d1: i32 = y_radius * y_radius - x_radius * x_radius * y_radius + x_radius * x_radius;
        let mut dx: i32 = 2 * y_radius * y_radius * x;
        let mut dy: i32 = 2 * x_radius * x_radius * y;

        let ghost s0: EllipseState = (x as int, y as int, d1 as int, dx as int, dy as int);
        assert(ellipse_start(rx, ry) == Some(s0));
        let ghost r1 = ellipse_run1(s0, rx, ry)->0;
        let mut pts: Vec<(i32, i32)> = Vec::new();

        // For region 1
        while dx < dy
            invariant
                ellipse_run1((x as int, y as int, d1 as int, dx as int, dy as int), rx, ry) is Some,
                pts@ + (ellipse_run1((x as int, y as int, d1 as int, dx as int, dy as int), rx, ry)->0).0 == r1.0,
                (ellipse_run1((x as int, y as int, d1 as int, dx as int, dy as int), rx, ry)->0).1 == r1.1,
                ry == 0 ==> dx == 0 && dy == 0,
                rx == x_radius,
                ry == y_radius,
            decreases ellipse_measure1((x as int, y as int, d1 as int, dx as int, dy as int)),
        {
            let ghost cur: EllipseState = (x as int, y as int, d1 as int, dx as int, dy as int);
            proof {
                assert((2 * ry) * ry > 0) by (nonlinear_arith)
                    requires
                        ry != 0,
                ;
                assert((2 * rx) * rx >= 0) by (nonlinear_arith);
            }
            pts.push((x, y));

            // Checking and updating value of
            // decision parameter based on algorithm
            if d1 < 0 {
                x = x + 1;
                dx = dx + 2 * y_radius * y_radius;
                d1 = d1 + (dx + y_radius * y_radius);
            } else {
                x = x + 1;
                y = y - 1;
                dx = dx + 2 * y_radius * y_radius;
                dy = dy - 2 * x_radius * x_radius;
                d1 = d1 + (dx - dy + y_radius * y_radius);
            }
            proof {
                let next = ellipse_run1((x as int, y as int, d1 as int, dx as int, dy as int), rx, ry)->0;
                assert(ellipse_step1(cur, rx, ry) == Some((x as int, y as int, d1 as int, dx as int, dy as int)));
                assert(pts@ + next.0 =~= pts@.drop_last() + (seq![(cur.0 as i32, cur.1 as i32)] + next.0));
            }
        }
        proof {
            assert(pts@ + Seq::<(i32, i32)>::empty() =~= pts@);
        }

        // Decision parameter of region 2
        let mut d2: i32 = y_radius * y_radius * (x * x + x) + x_radius * x_radius * (y - 1) * (y - 1)
            - x_radius * x_radius * y_radius * y_radius;
        let ghost s2: EllipseState = (x as int, y as int, d2 as int, dx as int, dy as int);
        let ghost p1 = pts@;
        let ghost p2 = ellipse_run2(s2, rx, ry)->0;

        // Plotting points of region 2
        while y >= 0
            invariant
                ellipse_run2((x as int, y as int, d2 as int, dx as int, dy as int), rx, ry) is Some,
                pts@ + ellipse_run2((x as int, y as int, d2 as int, dx as int, dy as int), rx, ry)->0 == p1 + p2,
                rx == x_radius,
                ry == y_radius,
            decreases (if y >= 0 { y + 1 } else { 0 }) as nat,
        {
            let ghost cur: EllipseState = (x as int, y as int, d2 as int, dx as int, dy as int);
            pts.push((x, y));

            // Checking and updating parameter
            // value based on algorithm
            if d2 > 0 {
                y = y - 1;
                dy = dy - 2 * x_radius * x_radius;
                d2 = d2 + (x_radius * x_radius - dy);
            } else {
                y = y - 1;
                x = x + 1;
                dx = dx + 2 * y_radius * y_radius;
                dy = dy - 2 * x_radius * x_radius;
                d2 = d2 + (dx - dy + x_radius * x_radius);
            }
            proof {
                let next = ellipse_run2((x as int, y as int, d2 as int, dx as int, dy as int), rx, ry)->0;
                assert(ellipse_step2(cur, rx, ry) == Some((x as int, y as int, d2 as int, dx as int, dy as int)));
                assert(pts@ + next =~= pts@.drop_last() + (seq![(cur.0 as i32, cur.1 as i32)] + next));
            }
        }
        proof {
            assert(pts@ + Seq::<(i32, i32)>::empty() =~= pts@);
        }
        pts
    }

    /// The four mirror images of a quadrant point around the screen center `c`.
    pub open spec fn ellipse_point(self, mem: Seq<u8>, c: (i32, i32), pt: (i32, i32), color: u16) -> Seq<u8> {
        let (cx, cy) = (c.0 as int, c.1 as int);
        let (x, y) = (pt.0 as int, pt.1 as int);
        let m1 = self.plot(mem, cx + x, cy + y, color);
        let m2 = self.plot(m1, cx - x, cy + y, color);
        let m3 = self.plot(m2, cx + x, cy - y, color);
        self.plot(m3, cx - x, cy - y, color)
    }

    pub fn draw_ellipse(&mut self, memory: &mut [u8], cx: i32, cy: i32, x_radius: u32, y_radius: u32, color: Color)
        requires
            old(self).ready(old(memory)@),
            ellipse_points_spec(x_radius as i32, y_radius as i32) is Some,
            forall|i: int| 0 <= i < ellipse_points_spec(x_radius as i32, y_radius as i32)->0.len() ==>
                ellipse_point_ok(translate_spec(old(self).camera, cx, cy),
                    #[trigger] ellipse_points_spec(x_radius as i32, y_radius as i32)->0[i]),
        ensures
            final(memory)@ == fold_points(
                old(memory)@,
                ellipse_points_spec(x_radius as i32, y_radius as i32)->0,
                |m: Seq<u8>, pt: (i32, i32)| old(self).ellipse_point(m, translate_spec(old(self).camera, cx, cy), pt, color),
            ),
            final(memory)@.len() == old(memory)@.len(),
            *final(self) == *old(self),
    {
        let ghost mem0 = memory@;
        let ghost self0 = *self;
        let ghost f = |m: Seq<u8>, pt: (i32, i32)| self0.ellipse_point(m, translate_spec(self0.camera, cx, cy), pt, color);
        let pts = self.draw_ellipse_quardrant_points(x_radius as i32, y_radius as i32);
        for i in 0..pts.len()
            invariant
                *self == self0,
                self.ready(mem0),
                memory@.len() == mem0.len(),
                memory@ == fold_points(mem0, pts@.take(i as int), f),
                forall|j: int| 0 <= j < pts@.len() ==> ellipse_point_ok(
                    translate_spec(self.camera, cx, cy),
                    #[trigger] pts@[j],
                ),
                f == (|m: Seq<u8>, pt: (i32, i32)| self0.ellipse_point(m, translate_spec(self0.camera, cx, cy), pt, color)),
        {
            let (x, y) = pts[i];
            assert(ellipse_point_ok(translate_spec(self.camera, cx, cy), pts@[i as int]));
            let (cx, cy) = self.camera.translate(cx, cy);
            self.draw_pixel_untranslated(memory, cx + x, cy + y, color);
            self.draw_pixel_untranslated(memory, cx - x, cy + y, color);
            self.draw_pixel_untranslated(memory, cx + x, cy - y, color);
            self.draw_pixel_untranslated(memory, cx - x, cy - y, color);
            proof {
                assert(pts@.take(i + 1).drop_last() =~= pts@.take(i as int));
            }
        }
        proof {
            assert(pts@.take(pts@.len() as int) =~= pts@);
        }
    }

    /// The two spans that fill an ellipse for one quadrant point (world center).
    pub open spec fn filled_ellipse_point(self, mem: Seq<u8>, cx: i32, cy: i32, pt: (i32, i32), color: u16) -> Seq<u8> {
        let (x, y) = (pt.0 as int, pt.1 as int);
        let px = cx - x;
        let width = (cx + x - px + 1) as u32;
        let m1 = self.hline_spec(mem, px as i32, (cy + y) as i32, width, color);
        self.hline_spec(m1, px as i32, (cy - y) as i32, width, color)
    }

    pub open spec fn filled_ellipse_point_ok(self, cx: i32, cy: i32, pt: (i32, i32)) -> bool {
        let (x, y) = (pt.0 as int, pt.1 as int);
        let px = cx - x;
        &&& in_i32(px) && in_i32(cx + x) && in_i32(cx + x - px) && in_i32(cx + x - px + 1)
        &&& in_i32(cy + y) && in_i32(cy - y)
        &&& self.hline_ok(px as i32, (cy + y) as i32, (cx + x - px + 1) as u32)
        &&& self.hline_ok(px as i32, (cy - y) as i32, (cx + x - px + 1) as u32)
    }

    pub fn draw_filled_ellipse(&mut self, memory: &mut [u8], cx: i32, cy: i32, x_radius: u32, y_radius: u32, color: Color)
        requires
            old(self).ready(old(memory)@),
            ellipse_points_spec(x_radius as i32, y_radius as i32) is Some,
            forall|i: int| 0 <= i < ellipse_points_spec(x_radius as i32, y_radius as i32)->0.len() ==>
                old(self).filled_ellipse_point_ok(cx, cy,
                    #[trigger] ellipse_points_spec(x_radius as i32, y_radius as i32)->0[i]),
        ensures
            final(memory)@ == fold_points(
                old(memory)@,
                ellipse_points_spec(x_radius as i32, y_radius as i32)->0,
                |m: Seq<u8>, pt: (i32, i32)| old(self).filled_ellipse_point(m, cx, cy, pt, color),
            ),
            final(memory)@.len() == old(memory)@.len(),
            *final(self) == *old(self),
    {
        let ghost mem0 = memory@;
        let ghost self0 = *self;
        let ghost f = |m: Seq<u8>, pt: (i32, i32)| self0.filled_ellipse_point(m, cx, cy, pt, color);
        let pts = self.draw_ellipse_quardrant_points(x_radius as i32, y_radius as i32);
        for i in 0..pts.len()
            invariant
                *self == self0,
                self.ready(mem0),
                memory@.len() == mem0.len(),
                memory@ == fold_points(mem0, pts@.take(i as int), f),
                forall|j: int| 0 <= j < pts@.len() ==> self.filled_ellipse_point_ok(cx, cy, #[trigger] pts@[j]),
                f == (|m: Seq<u8>, pt: (i32, i32)| self0.filled_ellipse_point(m, cx, cy, pt, color)),
        {
            let (x, y) = pts[i];
            assert(self.filled_ellipse_point_ok(cx, cy, pts@[i as int]));
            let px = cx - x;
            let width = (cx + x - px + 1) as u32;
            self.draw_hline(memory, px, cy + y, width, color);
            self.draw_hline(memory, px, cy - y, width, color);
            proof {
                assert(pts@.take(i + 1).drop_last() =~= pts@.take(i as int));
            }
        }
        proof {
            assert(pts@.take(pts@.len() as int) =~= pts@);
        }
    }
}

impl GraphicsState {
    /// The first `n` pixels of `line` from `offset` on, copied to the row `y` from column `x`;
    /// pixels past the end of the line and pixels of the transparency color are skipped.
    pub open spec fn copy_run(self, mem: Seq<u8>, x: int, y: int, line: Seq<u8>, offset: int, n: nat) -> Seq<u8>
        decreases n,
    {
        if n == 0 {
            mem
        } else {
            let prev = self.copy_run(mem, x, y, line, offset, (n - 1) as nat);
            let k = offset + n - 1;
            if k < line.len() && line[k] != self.transparency_color {
                self.draw_region.put(prev, x + n - 1, y, line[k])
            } else {
                prev
            }
        }
    }

    /// A row of bytes drawn at screen coordinates: nothing on a row outside the region,
    /// otherwise the part of the row that the region's width clamp keeps.
    pub open spec fn line_bytes_at(self, mem: Seq<u8>, x: i32, y: i32, line: Seq<u8>) -> Seq<u8> {
        if !self.draw_region.inside_height_spec(y as int) {
            mem
        } else {
            let c = DrawRegion::clamp_spec(x, line.len() as u32, self.draw_region.width);
            self.copy_run(mem, c.0 as int, y as int, line, c.2 as int, c.1 as nat)
        }
    }

    pub open spec fn line_bytes_at_ok(self, x: i32, y: i32, len: nat) -> bool {
        self.draw_region.inside_height_spec(y as int) ==> in_i32(
            self.draw_region.index_of(DrawRegion::clamp_spec(x, len as u32, self.draw_region.width).0 as int, y as int),
        )
    }

    /// A row of bytes drawn at world coordinates.
    pub open spec fn line_bytes_spec(self, mem: Seq<u8>, x: i32, y: i32, line: Seq<u8>) -> Seq<u8> {
        let t = translate_spec(self.camera, x, y);
        self.line_bytes_at(mem, t.0, t.1, line)
    }

    pub open spec fn line_bytes_ok(self, x: i32, y: i32, len: nat) -> bool {
        let t = translate_spec(self.camera, x, y);
        self.line_bytes_at_ok(t.0, t.1, len)
    }

    /// Draws a sequence of bytes as a line.
    fn draw_line_bytes(&mut self, memory: &mut [u8], x: i32, y: i32, line: &[u8])
        requires
            old(self).ready(old(memory)@),
            old(self).line_bytes_ok(x, y, line@.len()),
        ensures
            final(memory)@ == old(self).line_bytes_spec(old(memory)@, x, y, line@),
            final(memory)@.len() == old(memory)@.len(),
            *final(self) == *old(self),
    {
        let (x, y) = self.camera.translate(x, y);

        if !self.draw_region.inside_height(y) {
            return;
        }

        self.draw_line_bytes_untranslated(memory, x, y, line);
    }

    /// Copies a row of bytes to screen coordinates, skipping transparent pixels.
    /// Only rows inside the region are drawn.
    fn draw_line_bytes_untranslated(&mut self, memory: &mut [u8], x: i32, y: i32, line: &[u8])
        requires
            old(self).ready(old(memory)@),
            old(self).line_bytes_at_ok(x, y, line@.len()),
        ensures
            final(memory)@ == old(self).line_bytes_at(old(memory)@, x, y, line@),
            final(memory)@.len() == old(memory)@.len(),
            *final(self) == *old(self),
    {
        let ghost mem0 = memory@;
        if !self.draw_region.inside_height(y) {
            return;
        }
        let (x, width, offset) = self.draw_region.clamp_width(x, line.len() as u32);

        proof {
            let w = self.draw_region.width;
            let h = self.draw_region.height;
            assert(w <= 0x7fff_ffff ==> w as i32 == w) by (bit_vector);
            assert(h <= 0x7fff_ffff ==> h as i32 == h) by (bit_vector);
            assert(0 <= y * w <= w * h) by (nonlinear_arith)
                requires
                    0 <= y < h,
            ;
        }
        let index = self.draw_region.as_index(x, y);
        let n: usize = width as usize;
        let off: usize = offset as usize;
        for i in 0..n
            invariant
                self.ready(mem0),
                memory@.len() == mem0.len(),
                memory@ == self.copy_run(mem0, x as int, y as int, line@, off as int, i as nat),
                self.draw_region.inside_height_spec(y as int),
                0 <= x,
                index == x + y * self.draw_region.width,
                n == 0 || x + n <= self.draw_region.width,
                off == offset,
        {
            if off < line.len() && i < line.len() - off {
                let pixel = line[i + off];
                if pixel != self.transparency_color {
                    proof {
                        self.lemma_plot_inside(memory@, x + i, y as int, 0);
                    }
                    memory[index + i] = pixel;
                }
            }
        }
    }

    /// The rows `line_y .. line_y + n` of a sprite drawn at rows `y ..` (world coordinates).
    pub open spec fn sprite_rows(self, mem: Seq<u8>, x: i32, y: i32, sprite: Seq<u8>, width: u32, line_y: int, n: nat) -> Seq<u8>
        decreases n,
    {
        if n == 0 {
            mem
        } else {
            let prev = self.sprite_rows(mem, x, y, sprite, width, line_y, (n - 1) as nat);
            let row = line_y + n - 1;
            self.line_bytes_spec(prev, x, (y + ((n - 1) as i32)) as i32, sprite.subrange(row * width, row * width + width))
        }
    }

    /// Where a sprite's drawing starts: a negative `y` skips the rows above 0.
    pub open spec fn sprite_start(y: i32, height: u32) -> (i32, int, nat) {
        if y < 0 {
            (0, abs_u32(y) as int, (if height >= abs_u32(y) { height - abs_u32(y) } else { 0 }) as nat)
        } else {
            (y, 0, height as nat)
        }
    }

    pub open spec fn sprite_spec(self, mem: Seq<u8>, x: i32, y: i32, sprite: Seq<u8>, width: u32, height: u32) -> Seq<u8> {
        let s = Self::sprite_start(y, height);
        self.sprite_rows(mem, x, s.0, sprite, width, s.1, s.2)
    }

    pub open spec fn sprite_ok(self, x: i32, y: i32, sprite: Seq<u8>, width: u32, height: u32) -> bool {
        let s = Self::sprite_start(y, height);
        &&& sprite.len() >= width * height
        &&& forall|i: int| 0 <= i < s.2 ==> #[trigger] in_i32(s.0 + (i as i32))
            && self.line_bytes_ok(x, (s.0 + (i as i32)) as i32, width as nat)
    }

    pub fn draw_sprite(&mut self, memory: &mut [u8], x: i32, y: i32, sprite: &[u8], spr_width: u32, spr_height: u32)
        requires
            old(self).ready(old(memory)@),
            old(self).sprite_ok(x, y, sprite@, spr_width, spr_height),
        ensures
            final(memory)@ == old(self).sprite_spec(old(memory)@, x, y, sprite@, spr_width, spr_height),
            final(memory)@.len() == old(memory)@.len(),
            *final(self) == *old(self),
    {
        let ghost mem0 = memory@;
        let ghost self0 = *self;
        let ghost start = Self::sprite_start(y, spr_height);
        let sprite_region = DrawRegion::new(spr_width, spr_height);

        let mut y = y;
        let mut spr_height = spr_height;
        let mut line_y: u32 = 0;
        if y < 0 {
            line_y = crate::graphics::draw_region::unsigned_abs(y);
            spr_height = spr_height.saturating_sub(line_y);
            y = 0;
        }

        proof {
            assert forall|j: int| 0 <= j < spr_height implies #[trigger] in_i32(y + (j as i32))
                && self.line_bytes_ok(x, (y + (j as i32)) as i32, spr_width as nat) by {
                assert(in_i32(start.0 + (j as i32)));
            }
        }
        for i in 0..spr_height
            invariant
                *self == self0,
                self.ready(mem0),
                memory@.len() == mem0.len(),
                memory@ == self.sprite_rows(mem0, x, y, sprite@, spr_width, line_y as int, i as nat),
                start == (y, line_y as int, spr_height as nat),
                forall|j: int| 0 <= j < spr_height ==> #[trigger] in_i32(y + (j as i32))
                    && self.line_bytes_ok(x, (y + (j as i32)) as i32, spr_width as nat),
                spr_height == 0 || line_y + spr_height <= sprite_region.height,
                sprite_region.width == spr_width,
                sprite@.len() >= sprite_region.width * sprite_region.height,
        {
            assert(in_i32(y + (i as i32)));
            assert(((line_y + i) + 1) * spr_width <= sprite@.len()) by (nonlinear_arith)
                requires
                    line_y + i + 1 <= sprite_region.height,
                    sprite@.len() >= spr_width * sprite_region.height,
            ;
            let line = sprite_region.get_line(sprite, (line_y + i) as usize);
            assert(0 <= (line_y + i) * spr_width && (line_y + i) * spr_width + spr_width == ((line_y + i) + 1) * spr_width) by (nonlinear_arith);
            assert(line@.len() == spr_width);
            assert(self.line_bytes_ok(x, (y + (i as i32)) as i32, spr_width as nat));
            self.draw_line_bytes(memory, x, y + i as i32, line);
        }
    }
}


impl GraphicsState {
    /// The first `n` rows of a character's glyph drawn at screen coordinates.
    pub open spec fn char_rows(self, mem: Seq<u8>, font: Seq<u8>, c: u8, x: i32, y: i32, fg: u8, bg: u8, n: nat) -> Seq<u8>
        decreases n,
    {
        if n == 0 {
            mem
        } else {
            let prev = self.char_rows(mem, font, c, x, y, fg, bg, (n - 1) as nat);
            self.line_bytes_at(prev, x, vstd::wrapping::i32_specs::wrapping_add(y, (n - 1) as i32), spread_bits(font[c * 8 + n - 1], fg, bg))
        }
    }

    /// Text drawn from screen position `(x, y)`: a row that leaves the region ends it; a
    /// newline or a character that would start outside the region's width moves to the next
    /// line, 8 pixels down at `start_x`; any other character is drawn and moves 8 pixels right.
    /// Positions step with `i32` wrapping arithmetic.
    pub open spec fn text_run(self, mem: Seq<u8>, font: Seq<u8>, text: Seq<u8>, start_x: i32, x: i32, y: i32, fg: u8, bg: u8) -> Seq<u8>
        decreases text.len(),
    {
        if text.len() == 0 || !self.draw_region.inside_height_spec(y as int) {
            mem
        } else if !self.draw_region.inside_width_spec(x as int) || text[0] == 10 {
            self.text_run(mem, font, text.skip(1), start_x, start_x, vstd::wrapping::i32_specs::wrapping_add(y, 8), fg, bg)
        } else {
            self.text_run(
                self.char_rows(mem, font, text[0], x, y, fg, bg, 8),
                font,
                text.skip(1),
                start_x,
                vstd::wrapping::i32_specs::wrapping_add(x, 8),
                y,
                fg,
                bg,
            )
        }
    }

    pub open spec fn text_spec(self, mem: Seq<u8>, font: Seq<u8>, text: Seq<u8>, x: i32, y: i32, fg: u8, bg: u8) -> Seq<u8> {
        let t = translate_spec(self.camera, x, y);
        self.text_run(mem, font, text, t.0, t.0, t.1, fg, bg)
    }

    pub fn draw_text(
        &mut self,
        memory: &mut [u8],
        font: &[u8; FONT_SIZE],
        text: &[u8],
        x: i32,
        y: i32,
        fg: u8,
        bg: u8,
    )
        requires
            old(self).ready(old(memory)@),
        ensures
            final(memory)@ == old(self).text_spec(old(memory)@, font@, text@, x, y, fg, bg),
            final(memory)@.len() == old(memory)@.len(),
            *final(self) == *old(self),
    {
        let ghost mem0 = memory@;
        let ghost self0 = *self;
        let (x, y) = self.camera.translate(x, y);
        let mut x = x;
        let mut y = y;
        let start_x = x;
        let ghost target = self.text_run(mem0, font@, text@, start_x, x, y, fg, bg);
        assert(text@.skip(0) =~= text@);

        let mut i: usize = 0;
        while i < text.len()
            invariant
                *self == self0,
                self.ready(memory@),
                memory@.len() == mem0.len(),
                i <= text@.len(),
                self.text_run(memory@, font@, text@.skip(i as int), start_x, x, y, fg, bg)
                    == target,
            ensures
                *self == self0,
                memory@.len() == mem0.len(),
                self.text_run(memory@, font@, text@.skip(i as int), start_x, x, y, fg, bg) == target,
                i >= text@.len() || !self.draw_region.inside_height_spec(y as int),
                i <= text@.len(),
            decreases text@.len() - i,
        {
            let character = text[i];
            proof {
                assert(text@.skip(i as int).skip(1) =~= text@.skip(i + 1));
                assert(text@.skip(i as int)[0] == character);
            }
            if !self.draw_region.inside_height(y) {
                break;
            }

            if !self.draw_region.inside_width(x) || character == 10u8 {
                x = start_x;
                y = y.wrapping_add(8);
            } else {
                self.draw_character_untranslated(memory, font, character, x, y, fg, bg);
                x = x.wrapping_add(8);
            }
            i = i + 1;
        }
        proof {
            if i >= text@.len() {
                assert(text@.skip(i as int).len() == 0);
            }
        }
    }

    /// Draws a character to the exact screen coordinates
    fn draw_character_untranslated(
        &mut self,
        memory: &mut [u8],
        font: &[u8; FONT_SIZE],
        character: u8,
        x: i32,
        y: i32,
        fg: u8,
        bg: u8,
    )
        requires
            old(self).ready(old(memory)@),
            old(self).draw_region.inside_width_spec(x as int),
            0 <= y < old(self).draw_region.height,
        ensures
            final(memory)@ == old(self).char_rows(old(memory)@, font@, character, x, y, fg, bg, 8),
            final(memory)@.len() == old(memory)@.len(),
            *final(self) == *old(self),
    {
        let ghost mem0 = memory@;
        let ghost self0 = *self;
        let c = character as usize;
        for i in 0..8usize
            invariant
                *self == self0,
                self.ready(mem0),
                memory@.len() == mem0.len(),
                memory@ == self.char_rows(mem0, font@, character, x, y, fg, bg, i as nat),
                self.draw_region.inside_width_spec(x as int),
                0 <= y < self.draw_region.height,
                c == character,
        {
            let line = byte_to_8_bytes(font[c * 8 + i], fg, bg);
            proof {
                let row = y + i;
                if self.draw_region.inside_height_spec(row) {
                    self.draw_region.lemma_inside_index(x as int, row);
                }
            }
            self.draw_line_bytes_untranslated(memory, x, y.wrapping_add(i as i32), &line);
        }
    }
}


/// The four mirrored coordinates of a quadrant point around a center fit in `i32`.
pub open spec fn ellipse_point_ok(c: (i32, i32), pt: (i32, i32)) -> bool {
    &&& in_i32(c.0 + pt.0)
    &&& in_i32(c.0 - pt.0)
    &&& in_i32(c.1 + pt.1)
    &&& in_i32(c.1 - pt.1)
}

} // verus!