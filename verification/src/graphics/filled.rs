use vstd::prelude::*;

use crate::graphics::camera::translate_spec;
use crate::graphics::graphics_state::{
    clamped_radius, ellipse_points_spec, fill_pixel, fold_points, in_i32, inner_len, octant_points_spec, GraphicsState,
};

verus! {

impl GraphicsState {
    /// The point `(i, j)` holds its fill pixel for `color` in `m`.
    pub open spec fn painted(self, m: Seq<u8>, i: int, j: int, color: u16) -> bool {
        m[self.draw_region.index_of(i, j)] == fill_pixel(self.fill_pattern@, i, j, color)
    }

    /// With the camera at the origin, a horizontal line keeps what is painted and paints its
    /// own points.
    proof fn lemma_hline_keeps_and_paints(self, mem: Seq<u8>, x: i32, y: i32, width: u32, color: u16, i: int, j: int)
        requires
            self.ready(mem),
            self.camera.x == 0,
            self.camera.y == 0,
        ensures
            self.hline_spec(mem, x, y, width, color).len() == mem.len(),
            self.draw_region.inside(i, j) && (self.painted(mem, i, j, color) || (j == y && x <= i < x + width))
                ==> self.painted(self.hline_spec(mem, x, y, width, color), i, j, color),
    {
        assert(translate_spec(self.camera, x, y) == (x, y));
        self.lemma_hline_paints_only_its_row(mem, x, y, width, color, i, j, 0);
    }

    /// A horizontal line, under any camera, keeps the memory's length.
    proof fn lemma_hline_len(self, mem: Seq<u8>, x: i32, y: i32, width: u32, color: u16)
        requires
            self.ready(mem),
        ensures
            self.hline_spec(mem, x, y, width, color).len() == mem.len(),
    {
        let t = translate_spec(self.camera, x, y);
        self.lemma_hline_paints_only_its_row(mem, t.0, t.1, width, color, 0, 0, 0);
    }
}

/// Whether `(i, j)` lies on one of the four spans a filled circle centred at `(cx, cy)` draws
/// for its octant point `pt = (x, y)`: rows `cy + y` and `cy - y` from `cx - x` up to, not
/// including, `cx + x`, and rows `cy + x` and `cy - x` from `cx + y` up to `cx - y`.
pub open spec fn on_circle_spans(cx: int, cy: int, pt: (i32, i32), i: int, j: int) -> bool {
    let (x, y) = (pt.0 as int, pt.1 as int);
    ||| (j == cy + y || j == cy - y) && cx - x <= i < cx + x
    ||| (j == cy + x || j == cy - x) && cx + y <= i < cx - y
}

/// Whether `(i, j)` lies on one of the two spans a filled ellipse centred at `(cx, cy)` draws
/// for its quadrant point `pt = (x, y)`: rows `cy + y` and `cy - y`, from `cx - x` to `cx + x`.
pub open spec fn on_ellipse_spans(cx: int, cy: int, pt: (i32, i32), i: int, j: int) -> bool {
    let (x, y) = (pt.0 as int, pt.1 as int);
    (j == cy + y || j == cy - y) && cx - x <= i <= cx + x
}

impl GraphicsState {
    proof fn lemma_filled_circle_point_paints(self, m: Seq<u8>, cx: i32, cy: i32, pt: (i32, i32), color: u16, i: int, j: int)
        requires
            self.ready(m),
            self.camera.x == 0,
            self.camera.y == 0,
            self.filled_circle_point_ok(cx, cy, pt),
        ensures
            self.filled_circle_point(m, cx, cy, pt, color).len() == m.len(),
            self.draw_region.inside(i, j) && (self.painted(m, i, j, color) || on_circle_spans(cx as int, cy as int, pt, i, j))
                ==> self.painted(self.filled_circle_point(m, cx, cy, pt, color), i, j, color),
    {
        let (x, y) = (pt.0 as int, pt.1 as int);
        let left = (cx - x) as i32;
        let width = (2 * x) as u32;
        let m1 = self.hline_spec(m, left, (cy + y) as i32, width, color);
        let m2 = self.hline_spec(m1, left, (cy - y) as i32, width, color);
        let left2 = (cx + y) as i32;
        let width2 = (2 * -y) as u32;
        let m3 = self.hline_spec(m2, left2, (cy + x) as i32, width2, color);
        self.lemma_hline_keeps_and_paints(m, left, (cy + y) as i32, width, color, i, j);
        self.lemma_hline_keeps_and_paints(m1, left, (cy - y) as i32, width, color, i, j);
        self.lemma_hline_keeps_and_paints(m2, left2, (cy + x) as i32, width2, color, i, j);
        self.lemma_hline_keeps_and_paints(m3, left2, (cy - x) as i32, width2, color, i, j);
        if x > 0 {
            assert(width == 2 * x);
        }
        if y < 0 {
            assert(width2 == -2 * y);
        }
    }

    proof fn lemma_filled_circle_fold(self, mem: Seq<u8>, cx: i32, cy: i32, pts: Seq<(i32, i32)>, color: u16, k: int, i: int, j: int)
        requires
            self.ready(mem),
            self.camera.x == 0,
            self.camera.y == 0,
            forall|q: int| 0 <= q < pts.len() ==> self.filled_circle_point_ok(cx, cy, #[trigger] pts[q]),
        ensures
            ({
                let fin = fold_points(mem, pts, |m: Seq<u8>, pt: (i32, i32)| self.filled_circle_point(m, cx, cy, pt, color));
                &&& fin.len() == mem.len()
                &&& self.draw_region.inside(i, j) && self.painted(mem, i, j, color) ==> self.painted(fin, i, j, color)
                &&& self.draw_region.inside(i, j) && 0 <= k < pts.len() && on_circle_spans(cx as int, cy as int, pts[k], i, j)
                    ==> self.painted(fin, i, j, color)
            }),
        decreases pts.len(),
    {
        if pts.len() > 0 {
            let f = |m: Seq<u8>, pt: (i32, i32)| self.filled_circle_point(m, cx, cy, pt, color);
            let rest = pts.drop_last();
            assert forall|q: int| 0 <= q < rest.len() implies self.filled_circle_point_ok(cx, cy, #[trigger] rest[q]) by {
                assert(rest[q] == pts[q]);
            }
            self.lemma_filled_circle_fold(mem, cx, cy, rest, color, k, i, j);
            let prev = fold_points(mem, rest, f);
            assert(pts.last() == pts[pts.len() - 1]);
            self.lemma_filled_circle_point_paints(prev, cx, cy, pts.last(), color, i, j);
            if 0 <= k < rest.len() {
                assert(rest[k] == pts[k]);
            }
        }
    }

    /// Law: with the camera at the origin, a filled circle paints, for every point `(x, y)` of
    /// its octant, all four spans that point stands for: rows `cy + y` and `cy - y` (the
    /// octant mirrored above and below the centre) from `cx - x`, `2x` wide, and rows `cy + x`
    /// and `cy - x` from `cx + y`, `-2y` wide. So the circle is filled symmetrically about its
    /// centre row. Every point of those spans inside the region holds its fill pixel.
    pub proof fn lemma_filled_circle_paints_mirrored_spans(
        self,
        mem: Seq<u8>,
        cx: i32,
        cy: i32,
        radius: u32,
        color: u16,
        k: int,
        i: int,
        j: int,
    )
        requires
            self.ready(mem),
            self.camera.x == 0,
            self.camera.y == 0,
            octant_points_spec(radius) is Some,
            forall|q: int| 0 <= q < octant_points_spec(radius)->0.len() ==>
                self.filled_circle_point_ok(cx, cy, #[trigger] octant_points_spec(radius)->0[q]),
            0 <= k < octant_points_spec(radius)->0.len(),
            on_circle_spans(cx as int, cy as int, octant_points_spec(radius)->0[k], i, j),
            self.draw_region.inside(i, j),
        ensures
            self.painted(
                fold_points(
                    mem,
                    octant_points_spec(radius)->0,
                    |m: Seq<u8>, pt: (i32, i32)| self.filled_circle_point(m, cx, cy, pt, color),
                ),
                i,
                j,
                color,
            ),
    {
        self.lemma_filled_circle_fold(mem, cx, cy, octant_points_spec(radius)->0, color, k, i, j);
    }

    proof fn lemma_filled_ellipse_point_paints(self, m: Seq<u8>, cx: i32, cy: i32, pt: (i32, i32), color: u16, i: int, j: int)
        requires
            self.ready(m),
            self.camera.x == 0,
            self.camera.y == 0,
            self.filled_ellipse_point_ok(cx, cy, pt),
        ensures
            self.filled_ellipse_point(m, cx, cy, pt, color).len() == m.len(),
            self.draw_region.inside(i, j) && (self.painted(m, i, j, color) || on_ellipse_spans(cx as int, cy as int, pt, i, j))
                ==> self.painted(self.filled_ellipse_point(m, cx, cy, pt, color), i, j, color),
    {
        let (x, y) = (pt.0 as int, pt.1 as int);
        let px = cx - x;
        let width = (cx + x - px + 1) as u32;
        let m1 = self.hline_spec(m, px as i32, (cy + y) as i32, width, color);
        self.lemma_hline_keeps_and_paints(m, px as i32, (cy + y) as i32, width, color, i, j);
        self.lemma_hline_keeps_and_paints(m1, px as i32, (cy - y) as i32, width, color, i, j);
        if x >= 0 {
            assert(width == 2 * x + 1);
        }
    }

    proof fn lemma_filled_ellipse_fold(self, mem: Seq<u8>, cx: i32, cy: i32, pts: Seq<(i32, i32)>, color: u16, k: int, i: int, j: int)
        requires
            self.ready(mem),
            self.camera.x == 0,
            self.camera.y == 0,
            forall|q: int| 0 <= q < pts.len() ==> self.filled_ellipse_point_ok(cx, cy, #[trigger] pts[q]),
        ensures
            ({
                let fin = fold_points(mem, pts, |m: Seq<u8>, pt: (i32, i32)| self.filled_ellipse_point(m, cx, cy, pt, color));
                &&& fin.len() == mem.len()
                &&& self.draw_region.inside(i, j) && self.painted(mem, i, j, color) ==> self.painted(fin, i, j, color)
                &&& self.draw_region.inside(i, j) && 0 <= k < pts.len() && on_ellipse_spans(cx as int, cy as int, pts[k], i, j)
                    ==> self.painted(fin, i, j, color)
            }),
        decreases pts.len(),
    {
        if pts.len() > 0 {
            let f = |m: Seq<u8>, pt: (i32, i32)| self.filled_ellipse_point(m, cx, cy, pt, color);
            let rest = pts.drop_last();
            assert forall|q: int| 0 <= q < rest.len() implies self.filled_ellipse_point_ok(cx, cy, #[trigger] rest[q]) by {
                assert(rest[q] == pts[q]);
            }
            self.lemma_filled_ellipse_fold(mem, cx, cy, rest, color, k, i, j);
            let prev = fold_points(mem, rest, f);
            assert(pts.last() == pts[pts.len() - 1]);
            self.lemma_filled_ellipse_point_paints(prev, cx, cy, pts.last(), color, i, j);
            if 0 <= k < rest.len() {
                assert(rest[k] == pts[k]);
            }
        }
    }

    /// Law: with the camera at the origin, a filled ellipse paints, for every point `(x, y)` of
    /// its quadrant, the span from `cx - x` to `cx + x` on both row `cy + y` and its mirror row
    /// `cy - y`; so it is filled symmetrically about its centre row. Every point of those
    /// spans inside the region holds its fill pixel.
    pub proof fn lemma_filled_ellipse_paints_mirrored_spans(
        self,
        mem: Seq<u8>,
        cx: i32,
        cy: i32,
        x_radius: u32,
        y_radius: u32,
        color: u16,
        k: int,
        i: int,
        j: int,
    )
        requires
            self.ready(mem),
            self.camera.x == 0,
            self.camera.y == 0,
            ellipse_points_spec(x_radius as i32, y_radius as i32) is Some,
            forall|q: int| 0 <= q < ellipse_points_spec(x_radius as i32, y_radius as i32)->0.len() ==>
                self.filled_ellipse_point_ok(cx, cy, #[trigger] ellipse_points_spec(x_radius as i32, y_radius as i32)->0[q]),
            0 <= k < ellipse_points_spec(x_radius as i32, y_radius as i32)->0.len(),
            on_ellipse_spans(cx as int, cy as int, ellipse_points_spec(x_radius as i32, y_radius as i32)->0[k], i, j),
            self.draw_region.inside(i, j),
        ensures
            self.painted(
                fold_points(
                    mem,
                    ellipse_points_spec(x_radius as i32, y_radius as i32)->0,
                    |m: Seq<u8>, pt: (i32, i32)| self.filled_ellipse_point(m, cx, cy, pt, color),
                ),
                i,
                j,
                color,
            ),
    {
        self.lemma_filled_ellipse_fold(mem, cx, cy, ellipse_points_spec(x_radius as i32, y_radius as i32)->0, color, k, i, j);
    }

    proof fn lemma_round_rect_point_len(self, m: Seq<u8>, x: i32, y: i32, r: int, iw: int, ih: int, pt: (i32, i32), color: u16)
        requires
            self.ready(m),
        ensures
            self.filled_round_rect_point(m, x, y, r, iw, ih, pt, color).len() == m.len(),
    {
        let (px, py) = (pt.0 as int, pt.1 as int);
        let cx = x + r;
        let w1 = (iw + 2 * px) as u32;
        let m1 = self.hline_spec(m, (cx - px) as i32, (y + r + py) as i32, w1, color);
        let m2 = self.hline_spec(m1, (cx - px) as i32, (y + ih + r - py) as i32, w1, color);
        let w2 = (iw - 2 * py) as u32;
        let m3 = self.hline_spec(m2, (cx + py) as i32, (y + r - px) as i32, w2, color);
        self.lemma_hline_len(m, (cx - px) as i32, (y + r + py) as i32, w1, color);
        self.lemma_hline_len(m1, (cx - px) as i32, (y + ih + r - py) as i32, w1, color);
        self.lemma_hline_len(m2, (cx + py) as i32, (y + r - px) as i32, w2, color);
        self.lemma_hline_len(m3, (cx + py) as i32, (y + ih + r + px) as i32, w2, color);
    }

    proof fn lemma_round_rect_fold_len(self, mem: Seq<u8>, x: i32, y: i32, r: int, iw: int, ih: int, pts: Seq<(i32, i32)>, color: u16)
        requires
            self.ready(mem),
        ensures
            fold_points(
                mem,
                pts,
                |m: Seq<u8>, pt: (i32, i32)| self.filled_round_rect_point(m, x, y, r, iw, ih, pt, color),
            ).len() == mem.len(),
        decreases pts.len(),
    {
        if pts.len() > 0 {
            let f = |m: Seq<u8>, pt: (i32, i32)| self.filled_round_rect_point(m, x, y, r, iw, ih, pt, color);
            self.lemma_round_rect_fold_len(mem, x, y, r, iw, ih, pts.drop_last(), color);
            self.lemma_round_rect_point_len(fold_points(mem, pts.drop_last(), f), x, y, r, iw, ih, pts.last(), color);
        }
    }

    /// Law: with the camera at the origin, a filled rounded rectangle is solid between its
    /// rounded ends: every point of the region with `x <= i < x + width` and
    /// `y + r <= j < y + height - r`, where `r` is the radius clamped to half the shorter side,
    /// holds its fill pixel.
    pub proof fn lemma_filled_round_rect_fills_its_middle(
        self,
        mem: Seq<u8>,
        x: i32,
        y: i32,
        width: u32,
        height: u32,
        radius: u32,
        color: u16,
        i: int,
        j: int,
    )
        requires
            self.ready(mem),
            self.camera.x == 0,
            self.camera.y == 0,
            self.filled_round_rect_ok(x, y, width, height, radius),
            self.draw_region.inside(i, j),
            x <= i < x + width,
            y + clamped_radius(width, height, radius) <= j < y + height - clamped_radius(width, height, radius),
        ensures
            self.painted(self.filled_round_rect_spec(mem, x, y, width, height, radius, color), i, j, color),
    {
        let r = clamped_radius(width, height, radius);
        let iw = (inner_len(width, r) as u32) as i32 as int;
        let ih_u = inner_len(height, r) as u32;
        let ih = ih_u as i32 as int;
        let f = |m: Seq<u8>, pt: (i32, i32)| self.filled_round_rect_point(m, x, y, r, iw, ih, pt, color);
        let pts = octant_points_spec(r as u32)->0;
        self.lemma_round_rect_fold_len(mem, x, y, r, iw, ih, pts, color);
        let m = fold_points(mem, pts, f);
        assert(in_i32(y + r));
        assert(ih_u == height - 2 * r);
        self.lemma_filled_rect_paints_its_box(m, x, (y + r) as i32, width, ih_u, color, i, j, 0);
    }

    /// Law: with the camera at the origin, text that starts with a newline, on a row of the
    /// region, is the rest of the text drawn from the column where it began, 8 rows lower.
    pub proof fn lemma_newline_returns_to_start_column(
        self,
        mem: Seq<u8>,
        font: Seq<u8>,
        rest: Seq<u8>,
        x: i32,
        y: i32,
        fg: u8,
        bg: u8,
    )
        requires
            self.camera.x == 0,
            self.camera.y == 0,
            self.draw_region.inside_height_spec(y as int),
            y + 8 <= i32::MAX,
        ensures
            self.text_spec(mem, font, seq![10u8] + rest, x, y, fg, bg) == self.text_spec(mem, font, rest, x, (y + 8) as i32, fg, bg),
    {
        assert(translate_spec(self.camera, x, y) == (x, y));
        assert(translate_spec(self.camera, x, (y + 8) as i32) == (x, (y + 8) as i32));
        let t = seq![10u8] + rest;
        assert(t[0] == 10u8);
        assert(t.skip(1) =~= rest);
        assert(vstd::wrapping::i32_specs::wrapping_add(y, 8) == y + 8);
    }

    /// Law: a character that would start outside the region's width acts as a newline: the
    /// text goes on from the column where the line began, 8 rows lower, as after a newline.
    pub proof fn lemma_char_past_edge_acts_as_newline(
        self,
        mem: Seq<u8>,
        font: Seq<u8>,
        c: u8,
        rest: Seq<u8>,
        start_x: i32,
        x: i32,
        y: i32,
        fg: u8,
        bg: u8,
    )
        requires
            !self.draw_region.inside_width_spec(x as int),
        ensures
            self.text_run(mem, font, seq![c] + rest, start_x, x, y, fg, bg)
                == self.text_run(mem, font, seq![10u8] + rest, start_x, x, y, fg, bg),
    {
        let t = seq![c] + rest;
        let n = seq![10u8] + rest;
        assert(t.skip(1) =~= rest);
        assert(n.skip(1) =~= rest);
        assert(n[0] == 10u8);
    }
}

} // verus!
