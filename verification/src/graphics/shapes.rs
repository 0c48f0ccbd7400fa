use vstd::prelude::*;

use crate::graphics::camera::translate_spec;
use crate::graphics::draw_region::DrawRegion;
use crate::graphics::graphics_state::{fill_pixel, in_i32, octant_measure, octant_points_spec, octant_run, GraphicsState};

verus! {

/// Two points inside a region of a width that fits an `i32` never share a memory index.
proof fn lemma_index_unique(r: DrawRegion, i: int, j: int, i2: int, j2: int)
    requires
        r.width <= 0x7fff_ffff,
        r.inside(i, j),
        r.inside(i2, j2),
        r.index_of(i, j) == r.index_of(i2, j2),
    ensures
        i == i2,
        j == j2,
{
    let w = r.width;
    assert(w <= 0x7fff_ffff ==> w as i32 == w) by (bit_vector);
    let wi = w as int;
    assert(i + j * wi == i2 + j2 * wi);
    if j < j2 {
        assert(j * wi + wi <= j2 * wi) by (nonlinear_arith)
            requires
                j < j2,
                wi > 0,
        ;
    } else if j2 < j {
        assert(j2 * wi + wi <= j * wi) by (nonlinear_arith)
            requires
                j2 < j,
                wi > 0,
        ;
    }
}

/// The points of an octant run from a column `x >= 0` all lie in the top-top-right octant.
proof fn lemma_octant_run_in_octant(x: int, y: int, p: int)
    requires
        x >= 0,
        in_i32(x),
        in_i32(y),
    ensures
        octant_run(x, y, p) is Some ==> forall|k: int| 0 <= k < octant_run(x, y, p)->0.len() ==> {
            let q = #[trigger] octant_run(x, y, p)->0[k];
            0 <= q.0 && q.1 <= 0 && q.0 <= -q.1
        },
    decreases octant_measure(x, y),
{
    if x < -y {
        let y2 = if p > 0 { y + 1 } else { y };
        let step = if p > 0 { 2 * (x + y2) + 1 } else { 2 * x + 1 };
        if octant_run(x, y, p) is Some {
            assert(in_i32(x + 1) && in_i32(y2));
            lemma_octant_run_in_octant(x + 1, y2, p + step);
            let rest = octant_run(x + 1, y2, p + step)->0;
            let all = octant_run(x, y, p)->0;
            assert(all == seq![(x as i32, y2 as i32)] + rest);
            assert forall|k: int| 0 <= k < all.len() implies {
                let q = #[trigger] all[k];
                0 <= q.0 && q.1 <= 0 && q.0 <= -q.1
            } by {
                if k > 0 {
                    assert(all[k] == rest[k - 1]);
                }
            }
        }
    }
}

/// Law: every point of a circle's octant lies in the top-top-right octant: its column is never
/// negative, its row never positive, and the column is at most the row's distance above the
/// center.
pub proof fn lemma_octant_points_in_octant(radius: u32)
    ensures
        octant_points_spec(radius) is Some ==> forall|k: int| 0 <= k < octant_points_spec(radius)->0.len() ==> {
            let q = #[trigger] octant_points_spec(radius)->0[k];
            0 <= q.0 && q.1 <= 0 && q.0 <= -q.1
        },
{
    let r = radius as i32;
    if r != i32::MIN {
        lemma_octant_run_in_octant(0, -r, -r);
    }
}

impl GraphicsState {
    /// Plotting one point inside the region changes its byte only, and only to its pixel;
    /// a point outside the region changes nothing.
    proof fn lemma_plot_at(self, mem: Seq<u8>, x: int, y: int, color: u16, i: int, j: int)
        requires
            self.ready(mem),
            self.draw_region.inside(i, j),
        ensures
            self.plot(mem, x, y, color).len() == mem.len(),
            self.plot(mem, x, y, color)[self.draw_region.index_of(i, j)] == (if i == x && j == y {
                fill_pixel(self.fill_pattern@, i, j, color)
            } else {
                mem[self.draw_region.index_of(i, j)]
            }),
    {
        self.draw_region.lemma_inside_index(i, j);
        if self.draw_region.inside(x, y) {
            self.draw_region.lemma_inside_index(x, y);
            if self.draw_region.index_of(x, y) == self.draw_region.index_of(i, j) {
                lemma_index_unique(self.draw_region, x, y, i, j);
            }
        }
    }

    /// Plotting leaves the bytes past the region alone.
    proof fn lemma_plot_beyond(self, mem: Seq<u8>, x: int, y: int, color: u16, k: int)
        requires
            self.ready(mem),
            self.draw_region.size() <= k < mem.len(),
        ensures
            self.plot(mem, x, y, color).len() == mem.len(),
            self.plot(mem, x, y, color)[k] == mem[k],
    {
        if self.draw_region.inside(x, y) {
            self.draw_region.lemma_inside_index(x, y);
        }
    }

    /// Law: a run of `n` points rightwards from `(x, y)` paints exactly the points of the
    /// region on row `y` with `x <= i < x + n`, each in its fill pixel, and leaves every other
    /// byte of the region as it was.
    pub proof fn lemma_run_h_paints_its_points(self, mem: Seq<u8>, x: int, y: int, n: nat, color: u16, i: int, j: int)
        requires
            self.ready(mem),
            self.draw_region.inside(i, j),
        ensures
            self.run_h(mem, x, y, n, color).len() == mem.len(),
            self.run_h(mem, x, y, n, color)[self.draw_region.index_of(i, j)] == (if j == y && x <= i < x + n {
                fill_pixel(self.fill_pattern@, i, j, color)
            } else {
                mem[self.draw_region.index_of(i, j)]
            }),
        decreases n,
    {
        if n > 0 {
            let prev = self.run_h(mem, x, y, (n - 1) as nat, color);
            self.lemma_run_h_paints_its_points(mem, x, y, (n - 1) as nat, color, i, j);
            self.lemma_plot_at(prev, x + n - 1, y, color, i, j);
        }
    }

    /// A run of points keeps the memory's length.
    proof fn lemma_run_h_len(self, mem: Seq<u8>, x: int, y: int, n: nat, color: u16)
        requires
            self.ready(mem),
        ensures
            self.run_h(mem, x, y, n, color).len() == mem.len(),
        decreases n,
    {
        if n > 0 {
            self.lemma_run_h_len(mem, x, y, (n - 1) as nat, color);
            if self.draw_region.inside(x + n - 1, y) {
                self.draw_region.lemma_inside_index(x + n - 1, y);
            }
        }
    }

    /// Law: a run of points leaves the bytes past the region alone.
    pub proof fn lemma_run_h_beyond(self, mem: Seq<u8>, x: int, y: int, n: nat, color: u16, k: int)
        requires
            self.ready(mem),
            self.draw_region.size() <= k < mem.len(),
        ensures
            self.run_h(mem, x, y, n, color).len() == mem.len(),
            self.run_h(mem, x, y, n, color)[k] == mem[k],
        decreases n,
    {
        if n > 0 {
            let prev = self.run_h(mem, x, y, (n - 1) as nat, color);
            self.lemma_run_h_beyond(mem, x, y, (n - 1) as nat, color, k);
            self.lemma_plot_beyond(prev, x + n - 1, y, color, k);
        }
    }

    /// Law: a horizontal line at screen coordinates paints exactly the points of the region
    /// on its row from `x` to `x + width - 1`, each in its fill pixel; every other byte of the
    /// region, and every byte past it, stays as it was.
    pub proof fn lemma_hline_paints_only_its_row(self, mem: Seq<u8>, x: i32, y: i32, width: u32, color: u16, i: int, j: int, k: int)
        requires
            self.ready(mem),
        ensures
            self.hline_at(mem, x, y, width, color).len() == mem.len(),
            self.draw_region.inside(i, j) ==> self.hline_at(mem, x, y, width, color)[self.draw_region.index_of(i, j)]
                == (if j == y && x <= i < x + width {
                fill_pixel(self.fill_pattern@, i, j, color)
            } else {
                mem[self.draw_region.index_of(i, j)]
            }),
            self.draw_region.size() <= k < mem.len() ==> self.hline_at(mem, x, y, width, color)[k] == mem[k],
    {
        let w = self.draw_region.width;
        let h = self.draw_region.height;
        assert(w <= 0x7fff_ffff ==> w as i32 == w) by (bit_vector);
        assert(h <= 0x7fff_ffff ==> h as i32 == h) by (bit_vector);
        if self.draw_region.inside_height_spec(y as int) {
            let c = DrawRegion::clamp_spec(x, width, w);
            DrawRegion::lemma_clamp_inside(x, width, w, i);
            self.lemma_run_h_len(mem, c.0 as int, y as int, c.1 as nat, color);
            if self.draw_region.inside(i, j) {
                self.lemma_run_h_paints_its_points(mem, c.0 as int, y as int, c.1 as nat, color, i, j);
            }
            if self.draw_region.size() <= k < mem.len() {
                self.lemma_run_h_beyond(mem, c.0 as int, y as int, c.1 as nat, color, k);
            }
        }
    }

    /// A run of points downwards keeps the memory's length and the bytes past the region.
    proof fn lemma_run_v_beyond(self, mem: Seq<u8>, x: int, y: int, n: nat, color: u16, k: int)
        requires
            self.ready(mem),
        ensures
            self.run_v(mem, x, y, n, color).len() == mem.len(),
            self.draw_region.size() <= k < mem.len() ==> self.run_v(mem, x, y, n, color)[k] == mem[k],
        decreases n,
    {
        if n > 0 {
            self.lemma_run_v_beyond(mem, x, y, (n - 1) as nat, color, k);
            if self.draw_region.inside(x, y + n - 1) {
                self.draw_region.lemma_inside_index(x, y + n - 1);
            }
        }
    }

    /// Law: a run of `n` points downwards from `(x, y)` paints exactly the points of the
    /// region in column `x` with `y <= j < y + n`, and leaves every other byte of the region as
    /// it was.
    pub proof fn lemma_run_v_paints_its_points(self, mem: Seq<u8>, x: int, y: int, n: nat, color: u16, i: int, j: int)
        requires
            self.ready(mem),
            self.draw_region.inside(i, j),
        ensures
            self.run_v(mem, x, y, n, color)[self.draw_region.index_of(i, j)] == (if i == x && y <= j < y + n {
                fill_pixel(self.fill_pattern@, i, j, color)
            } else {
                mem[self.draw_region.index_of(i, j)]
            }),
        decreases n,
    {
        if n > 0 {
            let prev = self.run_v(mem, x, y, (n - 1) as nat, color);
            self.lemma_run_v_paints_its_points(mem, x, y, (n - 1) as nat, color, i, j);
            self.lemma_run_v_beyond(mem, x, y, (n - 1) as nat, color, 0);
            self.lemma_plot_at(prev, x, y + n - 1, color, i, j);
        }
    }

    /// Law: a vertical line at screen coordinates in a column of the region, whose top point is
    /// inside the region, paints exactly the points of the region in its column from `y` to
    /// `y + height - 1`; one whose top point is outside paints nothing. Every other byte, and
    /// every byte past the region, stays as it was. (A line in a column outside the region is
    /// written by index into neighbouring rows, so this does not hold of it.)
    pub proof fn lemma_vline_paints_only_its_column(self, mem: Seq<u8>, x: i32, y: i32, height: u32, color: u16, i: int, j: int, k: int)
        requires
            self.ready(mem),
            self.draw_region.inside_width_spec(x as int),
        ensures
            self.vline_at(mem, x, y, height, color).len() == mem.len(),
            self.draw_region.inside(i, j) ==> self.vline_at(mem, x, y, height, color)[self.draw_region.index_of(i, j)]
                == (if self.draw_region.inside(x as int, y as int) && i == x && y <= j < y + height {
                fill_pixel(self.fill_pattern@, i, j, color)
            } else {
                mem[self.draw_region.index_of(i, j)]
            }),
            self.draw_region.size() <= k < mem.len() ==> self.vline_at(mem, x, y, height, color)[k] == mem[k],
    {
        let w = self.draw_region.width;
        let h = self.draw_region.height;
        assert(w <= 0x7fff_ffff ==> w as i32 == w) by (bit_vector);
        assert(h <= 0x7fff_ffff ==> h as i32 == h) by (bit_vector);
        if self.draw_region.inside(x as int, y as int) {
            let c = DrawRegion::clamp_spec(y, height, h);
            DrawRegion::lemma_clamp_inside(y, height, h, j);
            self.lemma_run_v_beyond(mem, x as int, c.0 as int, c.1 as nat, color, k);
            if self.draw_region.inside(i, j) {
                self.lemma_run_v_paints_its_points(mem, x as int, c.0 as int, c.1 as nat, color, i, j);
            }
        }
    }

    /// The horizontal lines at rows `y + from` to `y + to - 1`, with the camera at the origin,
    /// paint exactly the points of the region on those rows from `x` to `x + width - 1`.
    proof fn lemma_hlines_paint_their_rows(
        self,
        mem: Seq<u8>,
        x: i32,
        y: i32,
        from: int,
        to: int,
        width: u32,
        color: u16,
        i: int,
        j: int,
        k: int,
    )
        requires
            self.ready(mem),
            self.camera.x == 0,
            self.camera.y == 0,
            forall|r: int| from <= r < to ==> #[trigger] in_i32(y + r),
        ensures
            self.hlines(mem, x, y, from, to, width, color).len() == mem.len(),
            self.draw_region.inside(i, j) ==> self.hlines(mem, x, y, from, to, width, color)[self.draw_region.index_of(i, j)]
                == (if x <= i < x + width && from <= j - y < to {
                fill_pixel(self.fill_pattern@, i, j, color)
            } else {
                mem[self.draw_region.index_of(i, j)]
            }),
            self.draw_region.size() <= k < mem.len() ==> self.hlines(mem, x, y, from, to, width, color)[k] == mem[k],
        decreases to - from,
    {
        if to > from {
            let prev = self.hlines(mem, x, y, from, to - 1, width, color);
            self.lemma_hlines_paint_their_rows(mem, x, y, from, to - 1, width, color, i, j, k);
            assert(in_i32(y + (to - 1)));
            let row = (y + (to - 1)) as i32;
            assert(translate_spec(self.camera, x, row) == (x, row));
            self.lemma_hline_paints_only_its_row(prev, x, row, width, color, i, j, k);
        }
    }

    /// Law: with the camera at the origin, a filled rectangle paints exactly the points of the
    /// region inside it, `x <= i < x + width` and `y <= j < y + height`, each in its fill pixel;
    /// every other byte of the region, and every byte past it, stays as it was.
    pub proof fn lemma_filled_rect_paints_its_box(
        self,
        mem: Seq<u8>,
        x: i32,
        y: i32,
        width: u32,
        height: u32,
        color: u16,
        i: int,
        j: int,
        k: int,
    )
        requires
            self.ready(mem),
            self.camera.x == 0,
            self.camera.y == 0,
            self.filled_rect_ok(x, y, width, height),
        ensures
            self.filled_rect_spec(mem, x, y, width, height, color).len() == mem.len(),
            self.draw_region.inside(i, j) ==> self.filled_rect_spec(mem, x, y, width, height, color)[self.draw_region.index_of(i, j)]
                == (if x <= i < x + width && y <= j < y + height {
                fill_pixel(self.fill_pattern@, i, j, color)
            } else {
                mem[self.draw_region.index_of(i, j)]
            }),
            self.draw_region.size() <= k < mem.len() ==> self.filled_rect_spec(mem, x, y, width, height, color)[k] == mem[k],
    {
        let h = self.draw_region.height;
        assert(h <= 0x7fff_ffff ==> h as i32 == h) by (bit_vector);
        assert(translate_spec(self.camera, x, y) == (x, y));
        let c = DrawRegion::clamp_spec(y, height, h);
        let ty = translate_spec(self.camera, x, y).1;
        assert(ty == y);
        assert(DrawRegion::clamp_spec(ty, height, self.draw_region.height) == c);
        DrawRegion::lemma_clamp_inside(y, height, h, j);
        assert forall|r: int| c.2 <= r < c.2 + c.1 implies #[trigger] in_i32(y + r) by {
            assert(in_i32(y + r) && self.hline_ok(x, (y + r) as i32, width));
        }
        self.lemma_hlines_paint_their_rows(mem, x, y, c.2 as int, c.2 + c.1, width, color, i, j, k);
    }

    /// Writing one byte at a point inside the region changes that point's byte only.
    proof fn lemma_put_at(self, mem: Seq<u8>, x: int, y: int, b: u8, i: int, j: int, k: int)
        requires
            self.ready(mem),
        ensures
            self.draw_region.put(mem, x, y, b).len() == mem.len(),
            self.draw_region.inside(i, j) ==> self.draw_region.put(mem, x, y, b)[self.draw_region.index_of(i, j)]
                == (if i == x && j == y { b } else { mem[self.draw_region.index_of(i, j)] }),
            self.draw_region.size() <= k < mem.len() ==> self.draw_region.put(mem, x, y, b)[k] == mem[k],
    {
        if self.draw_region.inside(x, y) {
            self.draw_region.lemma_inside_index(x, y);
            if self.draw_region.inside(i, j) {
                self.draw_region.lemma_inside_index(i, j);
                if self.draw_region.index_of(x, y) == self.draw_region.index_of(i, j) {
                    lemma_index_unique(self.draw_region, x, y, i, j);
                }
            }
        }
    }

    /// Law: copying `n` bytes of a row, from position `offset` of `line`, to the points
    /// rightwards from `(x, y)` writes each point of the region on row `y` with
    /// `x <= i < x + n` whose byte of `line` exists and is not the transparency color, in that
    /// byte; every other byte of the region, and every byte past it, stays as it was.
    pub proof fn lemma_copy_run_writes_its_points(
        self,
        mem: Seq<u8>,
        x: int,
        y: int,
        line: Seq<u8>,
        offset: int,
        n: nat,
        i: int,
        j: int,
        k: int,
    )
        requires
            self.ready(mem),
        ensures
            self.copy_run(mem, x, y, line, offset, n).len() == mem.len(),
            self.draw_region.inside(i, j) ==> self.copy_run(mem, x, y, line, offset, n)[self.draw_region.index_of(i, j)]
                == (if j == y && x <= i < x + n && offset + (i - x) < line.len()
                && line[offset + (i - x)] != self.transparency_color {
                line[offset + (i - x)]
            } else {
                mem[self.draw_region.index_of(i, j)]
            }),
            self.draw_region.size() <= k < mem.len() ==> self.copy_run(mem, x, y, line, offset, n)[k] == mem[k],
        decreases n,
    {
        if n > 0 {
            let prev = self.copy_run(mem, x, y, line, offset, (n - 1) as nat);
            self.lemma_copy_run_writes_its_points(mem, x, y, line, offset, (n - 1) as nat, i, j, k);
            let q = offset + n - 1;
            if q < line.len() && line[q] != self.transparency_color {
                self.lemma_put_at(prev, x + n - 1, y, line[q], i, j, k);
            }
        }
    }

    /// A row of bytes at screen coordinates writes each point of the region on row `y` with
    /// `x <= i < x + len` whose byte is not the transparency color, in that byte.
    proof fn lemma_line_bytes_writes_its_points(self, mem: Seq<u8>, x: i32, y: i32, line: Seq<u8>, i: int, j: int, k: int)
        requires
            self.ready(mem),
            line.len() <= u32::MAX,
        ensures
            self.line_bytes_at(mem, x, y, line).len() == mem.len(),
            self.draw_region.inside(i, j) ==> self.line_bytes_at(mem, x, y, line)[self.draw_region.index_of(i, j)]
                == (if j == y && x <= i < x + line.len() && line[i - x] != self.transparency_color {
                line[i - x]
            } else {
                mem[self.draw_region.index_of(i, j)]
            }),
            self.draw_region.size() <= k < mem.len() ==> self.line_bytes_at(mem, x, y, line)[k] == mem[k],
    {
        let w = self.draw_region.width;
        let h = self.draw_region.height;
        assert(w <= 0x7fff_ffff ==> w as i32 == w) by (bit_vector);
        assert(h <= 0x7fff_ffff ==> h as i32 == h) by (bit_vector);
        if self.draw_region.inside_height_spec(y as int) {
            let c = DrawRegion::clamp_spec(x, line.len() as u32, w);
            DrawRegion::lemma_clamp_inside(x, line.len() as u32, w, i);
            self.lemma_copy_run_writes_its_points(mem, c.0 as int, y as int, line, c.2 as int, c.1 as nat, i, j, k);
        }
    }

    /// The sprite rows `line_y ..` drawn at rows `y ..`, with the camera at the origin, write
    /// each point of the region they cover whose sprite byte is not transparent.
    proof fn lemma_sprite_rows_write_their_points(
        self,
        mem: Seq<u8>,
        x: i32,
        y: i32,
        sprite: Seq<u8>,
        width: u32,
        line_y: int,
        n: nat,
        i: int,
        j: int,
        k: int,
    )
        requires
            self.ready(mem),
            self.camera.x == 0,
            self.camera.y == 0,
            line_y >= 0,
            n <= 0x7fff_ffff,
            n > 0 ==> (line_y + n) * width <= sprite.len(),
            forall|r: int| 0 <= r < n ==> #[trigger] in_i32(y + r),
        ensures
            self.sprite_rows(mem, x, y, sprite, width, line_y, n).len() == mem.len(),
            self.draw_region.inside(i, j) ==> self.sprite_rows(mem, x, y, sprite, width, line_y, n)[self.draw_region.index_of(i, j)]
                == (if y <= j < y + n && x <= i < x + width
                && sprite[(line_y + j - y) * width + (i - x)] != self.transparency_color {
                sprite[(line_y + j - y) * width + (i - x)]
            } else {
                mem[self.draw_region.index_of(i, j)]
            }),
            self.draw_region.size() <= k < mem.len() ==> self.sprite_rows(mem, x, y, sprite, width, line_y, n)[k] == mem[k],
        decreases n,
    {
        if n > 0 {
            let prev = self.sprite_rows(mem, x, y, sprite, width, line_y, (n - 1) as nat);
            assert((line_y + (n - 1)) * width <= (line_y + n) * width) by (nonlinear_arith)
                requires
                    line_y >= 0,
                    n >= 1,
            ;
            assert(0 <= n - 1 < 0x8000_0000);
            self.lemma_sprite_rows_write_their_points(mem, x, y, sprite, width, line_y, (n - 1) as nat, i, j, k);
            let row = line_y + n - 1;
            assert(in_i32(y + (n - 1)));
            assert(((n - 1) as i32) == n - 1);
            let ry = (y + ((n - 1) as i32)) as i32;
            assert(ry == y + n - 1);
            assert(translate_spec(self.camera, x, ry) == (x, ry));
            assert(row * width + width == (line_y + n) * width) by (nonlinear_arith)
                requires
                    row == line_y + n - 1,
            ;
            assert(0 <= row * width) by (nonlinear_arith)
                requires
                    row >= 0,
            ;
            let line = sprite.subrange(row * width, row * width + width);
            self.lemma_line_bytes_writes_its_points(prev, x, ry, line, i, j, k);
            if j == ry && x <= i < x + width {
                assert(line[i - x] == sprite[row * width + (i - x)]);
                assert(row == line_y + j - y);
            }
        }
    }

    /// Law: with the camera at the origin, a sprite `width` wide and `height` high drawn at
    /// `(x, y)` writes each point `(i, j)` of the region with `x <= i < x + width` and
    /// `y <= j < y + height` whose sprite byte `sprite[(j - y) * width + (i - x)]` is not the
    /// transparency color, in that byte; every other byte of the region, and every byte past
    /// it, stays as it was.
    pub proof fn lemma_sprite_writes_its_pixels(
        self,
        mem: Seq<u8>,
        x: i32,
        y: i32,
        sprite: Seq<u8>,
        width: u32,
        height: u32,
        i: int,
        j: int,
        k: int,
    )
        requires
            self.ready(mem),
            self.camera.x == 0,
            self.camera.y == 0,
            height <= 0x7fff_ffff,
            self.sprite_ok(x, y, sprite, width, height),
        ensures
            self.sprite_spec(mem, x, y, sprite, width, height).len() == mem.len(),
            self.draw_region.inside(i, j) ==> self.sprite_spec(mem, x, y, sprite, width, height)[self.draw_region.index_of(i, j)]
                == (if x <= i < x + width && y <= j < y + height
                && sprite[(j - y) * width + (i - x)] != self.transparency_color {
                sprite[(j - y) * width + (i - x)]
            } else {
                mem[self.draw_region.index_of(i, j)]
            }),
            self.draw_region.size() <= k < mem.len() ==> self.sprite_spec(mem, x, y, sprite, width, height)[k] == mem[k],
    {
        let st = GraphicsState::sprite_start(y, height);
        if st.2 > 0 {
            assert(st.1 + st.2 <= height);
            assert((st.1 + st.2) * width <= height * width) by (nonlinear_arith)
                requires
                    0 <= st.1 + st.2 <= height,
            ;
        }
        assert forall|r: int| 0 <= r < st.2 implies #[trigger] in_i32(st.0 + r) by {
            assert(0 <= r < 0x8000_0000);
            assert(in_i32(st.0 + (r as i32)));
            assert((r as i32) == r);
        }
        self.lemma_sprite_rows_write_their_points(mem, x, st.0, sprite, width, st.1, st.2, i, j, k);
        if self.draw_region.inside(i, j) {
            assert(st.1 + j - st.0 == j - y);
        }
    }

    /// Law: drawing world points one after the other paints exactly the points of the region
    /// that some point of `pts` lands on once the camera translates it, each in its fill pixel;
    /// every other byte of the region, and every byte past it, stays as it was. (The lines and
    /// the pixels of `draw_line` and `draw_pixels` are drawn this way.)
    pub proof fn lemma_pixels_paint_their_points(self, mem: Seq<u8>, pts: Seq<(i32, i32)>, color: u16, i: int, j: int, k: int)
        requires
            self.ready(mem),
        ensures
            self.pixels(mem, pts, color).len() == mem.len(),
            self.draw_region.inside(i, j) ==> self.pixels(mem, pts, color)[self.draw_region.index_of(i, j)]
                == (if exists|q: int| 0 <= q < pts.len() && #[trigger] translate_spec(self.camera, pts[q].0, pts[q].1) == (i as i32, j as i32) {
                fill_pixel(self.fill_pattern@, i, j, color)
            } else {
                mem[self.draw_region.index_of(i, j)]
            }),
            self.draw_region.size() <= k < mem.len() ==> self.pixels(mem, pts, color)[k] == mem[k],
        decreases pts.len(),
    {
        if pts.len() > 0 {
            let rest = pts.drop_last();
            let prev = self.pixels(mem, rest, color);
            self.lemma_pixels_paint_their_points(mem, rest, color, i, j, k);
            let t = translate_spec(self.camera, pts.last().0, pts.last().1);
            if self.draw_region.inside(t.0 as int, t.1 as int) {
                self.draw_region.lemma_inside_index(t.0 as int, t.1 as int);
            }
            if self.draw_region.size() <= k < mem.len() {
                self.lemma_plot_beyond(prev, t.0 as int, t.1 as int, color, k);
            }
            if self.draw_region.inside(i, j) {
                self.lemma_plot_at(prev, t.0 as int, t.1 as int, color, i, j);
                let hit = exists|q: int| 0 <= q < pts.len() && #[trigger] translate_spec(self.camera, pts[q].0, pts[q].1) == (i as i32, j as i32);
                let hit_before = exists|q: int| 0 <= q < rest.len() && #[trigger] translate_spec(self.camera, rest[q].0, rest[q].1) == (i as i32, j as i32);
                let last = pts.len() - 1;
                assert(pts[last] == pts.last());
                if hit_before {
                    let q = choose|q: int| 0 <= q < rest.len() && #[trigger] translate_spec(self.camera, rest[q].0, rest[q].1) == (i as i32, j as i32);
                    assert(rest[q] == pts[q]);
                    assert(hit);
                }
                if hit && !hit_before {
                    let q = choose|q: int| 0 <= q < pts.len() && #[trigger] translate_spec(self.camera, pts[q].0, pts[q].1) == (i as i32, j as i32);
                    if q < last {
                        assert(rest[q] == pts[q]);
                    }
                    assert(q == last);
                }
                if t == (i as i32, j as i32) {
                    assert(translate_spec(self.camera, pts[last].0, pts[last].1) == (i as i32, j as i32));
                }
            }
        }
    }
}

} // verus!
