use vstd::prelude::*;

verus! {

/// A rectangle of pixels laid out row after row in memory.
pub struct DrawRegion {
    pub width: u32,
    pub height: u32,
}

/// The absolute value of an `i32` as a `u32`.
pub open spec fn abs_u32(x: i32) -> u32 {
    if x < 0 { (-(x as int)) as u32 } else { x as u32 }
}

impl DrawRegion {
    /// The number of pixels in the region.
    pub open spec fn size(self) -> int {
        self.width * self.height
    }

    /// Whether every in-bounds index fits the `i32` arithmetic of [`DrawRegion::as_index`].
    pub open spec fn fits(self) -> bool {
        self.width * self.height <= 0x8000_0000
    }

    pub open spec fn inside_width_spec(self, x: int) -> bool {
        0 <= x < self.width as i32
    }

    pub open spec fn inside_height_spec(self, y: int) -> bool {
        0 <= y < self.height as i32
    }

    pub open spec fn inside(self, x: int, y: int) -> bool {
        self.inside_width_spec(x) && self.inside_height_spec(y)
    }

    /// The memory index of the point `(x, y)`.
    pub open spec fn index_of(self, x: int, y: int) -> int {
        x + y * (self.width as i32)
    }

    /// `mem` with the point `(x, y)` set to `p` when the point is inside the region.
    pub open spec fn put(self, mem: Seq<u8>, x: int, y: int, p: u8) -> Seq<u8> {
        if self.inside(x, y) {
            mem.update(self.index_of(x, y), p)
        } else {
            mem
        }
    }

    /// The result of [`DrawRegion::clamp_width`]: the span `[x, x + len)` cut to `[0, limit)`,
    /// as its start, its length, and how far its start moved.
    pub open spec fn clamp_spec(x: i32, len: u32, limit: u32) -> (i32, u32, u32) {
        let offset: u32 = if x < 0 { abs_u32(x) } else { 0 };
        let rest: int = if len >= offset { len - offset } else { 0 };
        let new_x: i32 = if x < 0 { 0 } else { x };
        let room: int = if limit >= new_x { limit - new_x } else { 0 };
        (new_x, (if rest <= room { rest } else { room }) as u32, offset)
    }

    /// Law: clamping keeps exactly the part of a span inside the region: a position is in the
    /// clamped span if and only if it is in the span and in `[0, limit)`, and the clamped span
    /// starts where the span did, moved right by the offset.
    pub proof fn lemma_clamp_inside(x: i32, len: u32, limit: u32, i: int)
        ensures
            Self::clamp_spec(x, len, limit).0 >= 0,
            Self::clamp_spec(x, len, limit).0 == x + Self::clamp_spec(x, len, limit).2,
            Self::clamp_spec(x, len, limit).0 <= i < Self::clamp_spec(x, len, limit).0 + Self::clamp_spec(
                x,
                len,
                limit,
            ).1 <==> (x <= i < x + len && 0 <= i < limit),
    {
    }

    pub fn new(width: u32, height: u32) -> (r: Self)
        ensures
            r.width == width,
            r.height == height,
    {
        Self { width, height }
    }

    pub fn area(&self) -> (a: u32)
        requires
            self.size() <= u32::MAX,
        ensures
            a == self.size(),
    {
        self.width * self.height
    }

    pub fn inside_width(&self, x: i32) -> (r: bool)
        ensures
            r == self.inside_width_spec(x as int),
    {
        x >= 0 && x < self.width as i32
    }

    pub fn inside_height(&self, y: i32) -> (r: bool)
        ensures
            r == self.inside_height_spec(y as int),
    {
        y >= 0 && y < self.height as i32
    }

    /// Converts x and y coordinates to a byte index, without checking that the are in bounds.
    pub fn as_index(&self, x: i32, y: i32) -> (i: usize)
        requires
            i32::MIN <= y * (self.width as i32) <= i32::MAX,
            i32::MIN <= self.index_of(x as int, y as int) <= i32::MAX,
        ensures
            i == self.index_of(x as int, y as int) as usize,
    {
        (x + y * self.width as i32) as usize
    }

    pub proof fn lemma_inside_index(self, x: int, y: int)
        requires
            self.fits(),
            self.inside(x, y),
        ensures
            0 <= y * (self.width as i32) <= i32::MAX,
            0 <= self.index_of(x, y) < self.size(),
            self.index_of(x, y) <= i32::MAX,
    {
        let w = self.width;
        let h = self.height;
        assert(w as i32 > 0 ==> w as i32 == w) by (bit_vector);
        assert(h as i32 > 0 ==> h as i32 == h) by (bit_vector);
        assert(0 <= y * self.width <= (self.height - 1) * self.width) by (nonlinear_arith)
            requires
                0 <= y < self.height,
        ;
        assert((self.height - 1) * self.width + self.width == self.width * self.height)
            by (nonlinear_arith);
    }

    /// Writes a pixel without checking bounds; the point must be inside the region.
    pub fn set_pixel_unchecked(&mut self, memory: &mut [u8], x: i32, y: i32, pixel: u8)
        requires
            old(self).fits(),
            old(self).inside(x as int, y as int),
            old(memory)@.len() >= old(self).size(),
        ensures
            final(memory)@ == old(self).put(old(memory)@, x as int, y as int, pixel),
            *final(self) == *old(self),
    {
        proof {
            self.lemma_inside_index(x as int, y as int);
        }
        let index = self.as_index(x, y);
        memory[index] = pixel;
    }

    /// Draws a pixel to memory if it is inside the bounds of the drawing region.
    /// Note: the memory must start at the drawing region.
    pub fn set_pixel(&mut self, memory: &mut [u8], x: i32, y: i32, pixel: u8)
        requires
            old(self).fits(),
            old(memory)@.len() >= old(self).size(),
        ensures
            final(memory)@ == old(self).put(old(memory)@, x as int, y as int, pixel),
            *final(self) == *old(self),
    {
        if self.inside_width(x) && self.inside_height(y) {
            self.set_pixel_unchecked(memory, x, y, pixel);
        }
    }

    /// Gets the pixel at the given position, with that position being wrapped to within the texture.
    pub fn get_pixel_wrapped(&self, memory: &[u8], x: i32, y: i32) -> (p: u8)
        requires
            0 < self.width <= i32::MAX,
            0 < self.height <= i32::MAX,
            self.fits(),
            memory@.len() >= self.size(),
        ensures
            p == memory@[(x as int % self.width as int) + (y as int % self.height as int) * self.width],
    {
        let (x, y) = (wrap(x, self.width), wrap(y, self.height));
        proof {
            self.lemma_inside_index(x as int, y as int);
        }
        memory[self.as_index(x, y)]
    }

    /// Clamps the width and x position to be inside this region.
    /// Returns x, width, and index offset if x is less than 0.
    pub fn clamp_width(&self, x: i32, width: u32) -> (r: (i32, u32, u32))
        ensures
            r == Self::clamp_spec(x, width, self.width),
    {
        let mut x = x;
        let mut width = width;
        let mut offset: u32 = 0;
        if x < 0 {
            offset = unsigned_abs(x);
            width = width.saturating_sub(offset);
            x = 0;
        }

        let room = self.width.saturating_sub(x as u32);
        width = if width < room { width } else { room };

        (x, width, offset)
    }

    /// Clamps the height and y position to be inside this region.
    /// Returns y, height, and index offset if y is less than 0.
    pub fn clamp_height(&self, y: i32, height: u32) -> (r: (i32, u32, u32))
        ensures
            r == Self::clamp_spec(y, height, self.height),
    {
        let mut y = y;
        let mut height = height;
        let mut offset: u32 = 0;
        if y < 0 {
            offset = unsigned_abs(y);
            height = height.saturating_sub(offset);
            y = 0;
        }

        let room = self.height.saturating_sub(y as u32);
        height = if height < room { height } else { room };

        (y, height, offset)
    }

    /// The `i`-th row of the region.
    pub fn get_line<'a>(&self, memory: &'a [u8], i: usize) -> (line: &'a [u8])
        requires
            (i + 1) * self.width <= memory@.len(),
        ensures
            line@ == memory@.subrange(i * self.width, i * self.width + self.width),
    {
        let len = memory.len();
        assert(i * self.width + self.width == (i + 1) * self.width) by (nonlinear_arith);
        assert(i * self.width <= (i + 1) * self.width) by (nonlinear_arith);
        assert(i * (self.width as usize) == i * self.width);
        let offset = i * self.width as usize;
        &memory[offset..offset + self.width as usize]
    }
}

/// Euclidean remainder of a negated positive number.
proof fn lemma_mod_of_negative(a: int, n: int)
    requires
        a > 0,
        n > 0,
    ensures
        (-a) % n == (if a % n == 0 { 0 } else { n - a % n }),
{
    let q = a / n;
    let m = a % n;
    vstd::arithmetic::div_mod::lemma_fundamental_div_mod(a, n);
    if m == 0 {
        assert(-a == (-q) * n + 0) by (nonlinear_arith)
            requires
                a == n * q + m,
                m == 0,
        ;
        vstd::arithmetic::div_mod::lemma_fundamental_div_mod_converse(-a, n, -q, 0);
    } else {
        assert(-a == (-q - 1) * n + (n - m)) by (nonlinear_arith)
            requires
                a == n * q + m,
        ;
        vstd::arithmetic::div_mod::lemma_fundamental_div_mod_converse(-a, n, -q - 1, n - m);
    }
}

/// A position wrapped into `[0, n)`.
fn wrap(v: i32, n: u32) -> (r: i32)
    requires
        0 < n <= i32::MAX,
    ensures
        r == v as int % n as int,
        0 <= r < n,
{
    if v >= 0 {
        (v as u32 % n) as i32
    } else {
        let a: u64 = (-(v as i64)) as u64;
        let m = a % (n as u64);
        proof {
            lemma_mod_of_negative(a as int, n as int);
        }
        if m == 0 { 0 } else { (n as u64 - m) as i32 }
    }
}

/// The absolute value of an `i32`, as `i32::unsigned_abs` computes it.
pub fn unsigned_abs(x: i32) -> (r: u32)
    ensures
        r == abs_u32(x),
{
    if x == i32::MIN {
        0x8000_0000u32
    } else if x < 0 {
        (-x) as u32
    } else {
        x as u32
    }
}

} // verus!
