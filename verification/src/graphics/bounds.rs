use vstd::prelude::*;

use crate::graphics::camera::translate_spec;
use crate::graphics::draw_region::{unsigned_abs, DrawRegion};
use crate::graphics::graphics_state::{
    circle_point_ok, clamped_radius, ellipse_d2, ellipse_measure1, ellipse_point_ok, ellipse_points_spec, ellipse_run1,
    ellipse_run2, ellipse_start, ellipse_step1, ellipse_step2, in_i32, inner_len, line_points_spec, line_run,
    octant_measure, octant_points_spec, octant_run, sat_dec, EllipseState, GraphicsState,
};

verus! {

// Tests of the inputs on which the drawing functions stay within `i32` arithmetic, so that a
// caller can check a request from a program before drawing it.

/// Whether a value fits an `i32`.
fn fits(v: i64) -> (r: bool)
    ensures
        r == in_i32(v as int),
{
    i32::MIN as i64 <= v && v <= i32::MAX as i64
}

/// Whether the octant of a circle of this radius can be computed.
pub fn octant_points_fit(radius: u32) -> (r: bool)
    ensures
        r == octant_points_spec(radius) is Some,
{
    let rr = radius as i32;
    if rr == i32::MIN {
        return false;
    }
    let mut x: i64 = 0;
    let mut y: i64 = -(rr as i64);
    let mut p: i64 = -(rr as i64);
    while x < -y
        invariant
            in_i32(x as int),
            in_i32(y as int),
            in_i32(p as int),
            y > i32::MIN,
            (octant_points_spec(radius) is Some) == (octant_run(x as int, y as int, p as int) is Some),
        decreases octant_measure(x as int, y as int),
    {
        let y2 = if p > 0 { y + 1 } else { y };
        let step = if p > 0 { 2 * (x + y2) + 1 } else { 2 * x + 1 };
        let p2 = p + step;
        let ok = if p > 0 {
            fits(y2) && fits(x + y2) && fits(2 * (x + y2)) && fits(step) && fits(p2)
        } else {
            fits(2 * x) && fits(step) && fits(p2)
        };
        if !ok || !fits(x + 1) {
            return false;
        }
        x = x + 1;
        y = y2;
        p = p2;
    }
    true
}

/// Whether the eight mirror images of an octant point around `c` fit in `i32`.
fn circle_point_fits(c: (i32, i32), pt: (i32, i32)) -> (r: bool)
    ensures
        r == circle_point_ok(c, pt),
{
    let (cx, cy) = (c.0 as i64, c.1 as i64);
    let (x, y) = (pt.0 as i64, pt.1 as i64);
    fits(cx + x) && fits(cx - x) && fits(cy + y) && fits(cy - y) && fits(cx + y) && fits(cx - y) && fits(cy + x)
        && fits(cy - x)
}

/// The product of two values that fit in `i32`.
fn product(a: i64, b: i64) -> (r: i64)
    requires
        in_i32(a as int),
        in_i32(b as int),
    ensures
        r == a * b,
{
    assert(-0x4000_0000_0000_0000 <= a * b <= 0x4000_0000_0000_0000) by (nonlinear_arith)
        requires
            in_i32(a as int),
            in_i32(b as int),
    ;
    a * b
}

/// Whether the ellipse loops, from a state of the first loop, finish without overflow.
spec fn ellipse_tail1(s: EllipseState, rx: int, ry: int) -> bool {
    match ellipse_run1(s, rx, ry) {
        None => false,
        Some(r1) => {
            let s1 = r1.1;
            match ellipse_d2(s1.0, s1.1, rx, ry) {
                None => false,
                Some(d2) => ellipse_run2((s1.0, s1.1, d2, s1.3, s1.4), rx, ry) is Some,
            }
        },
    }
}

/// One step of the first ellipse loop, checked; `None` on overflow.
fn ellipse_step1_of(s: (i64, i64, i64, i64, i64), rx: i64, ry: i64) -> (r: Option<(i64, i64, i64, i64, i64)>)
    requires
        in_i32(s.0 as int),
        in_i32(s.1 as int),
        in_i32(s.2 as int),
        in_i32(s.3 as int),
        in_i32(s.4 as int),
        in_i32(rx as int),
        in_i32(ry as int),
    ensures
        match r {
            Some(t) => {
                &&& ellipse_step1((s.0 as int, s.1 as int, s.2 as int, s.3 as int, s.4 as int), rx as int, ry as int)
                    == Some((t.0 as int, t.1 as int, t.2 as int, t.3 as int, t.4 as int))
                &&& in_i32(t.0 as int) && in_i32(t.1 as int) && in_i32(t.2 as int) && in_i32(t.3 as int) && in_i32(t.4 as int)
            },
            None => ellipse_step1((s.0 as int, s.1 as int, s.2 as int, s.3 as int, s.4 as int), rx as int, ry as int) is None,
        },
{
    let (x, y, d1, dx, dy) = s;
    let ry2 = product(ry, ry);
    let two_ry = 2 * ry;
    if !fits(ry2) || !fits(two_ry) {
        return None;
    }
    let two_ry2 = product(two_ry, ry);
    let x2 = x + 1;
    if !fits(two_ry2) || !fits(x2) {
        return None;
    }
    let dx2 = dx + two_ry2;
    if !fits(dx2) {
        return None;
    }
    if d1 < 0 {
        let inc = dx2 + ry2;
        if !fits(inc) {
            return None;
        }
        let d2 = d1 + inc;
        if !fits(d2) {
            return None;
        }
        Some((x2, y, d2, dx2, dy))
    } else {
        let two_rx = 2 * rx;
        if !fits(two_rx) {
            return None;
        }
        let two_rx2 = product(two_rx, rx);
        let y2 = y - 1;
        if !fits(two_rx2) || !fits(y2) {
            return None;
        }
        let dy2 = dy - two_rx2;
        if !fits(dy2) {
            return None;
        }
        let diff = dx2 - dy2;
        if !fits(diff) {
            return None;
        }
        let inc = diff + ry2;
        if !fits(inc) {
            return None;
        }
        let d2 = d1 + inc;
        if !fits(d2) {
            return None;
        }
        Some((x2, y2, d2, dx2, dy2))
    }
}

/// One step of the second ellipse loop, checked; `None` on overflow.
fn ellipse_step2_of(s: (i64, i64, i64, i64, i64), rx: i64, ry: i64) -> (r: Option<(i64, i64, i64, i64, i64)>)
    requires
        in_i32(s.0 as int),
        in_i32(s.1 as int),
        in_i32(s.2 as int),
        in_i32(s.3 as int),
        in_i32(s.4 as int),
        in_i32(rx as int),
        in_i32(ry as int),
    ensures
        match r {
            Some(t) => {
                &&& ellipse_step2((s.0 as int, s.1 as int, s.2 as int, s.3 as int, s.4 as int), rx as int, ry as int)
                    == Some((t.0 as int, t.1 as int, t.2 as int, t.3 as int, t.4 as int))
                &&& in_i32(t.0 as int) && in_i32(t.1 as int) && in_i32(t.2 as int) && in_i32(t.3 as int) && in_i32(t.4 as int)
            },
            None => ellipse_step2((s.0 as int, s.1 as int, s.2 as int, s.3 as int, s.4 as int), rx as int, ry as int) is None,
        },
{
    let (x, y, d2, dx, dy) = s;
    let rx2 = product(rx, rx);
    let two_rx = 2 * rx;
    let y2 = y - 1;
    if !fits(rx2) || !fits(two_rx) || !fits(y2) {
        return None;
    }
    let two_rx2 = product(two_rx, rx);
    if !fits(two_rx2) {
        return None;
    }
    let dy2 = dy - two_rx2;
    if !fits(dy2) {
        return None;
    }
    if d2 > 0 {
        let inc = rx2 - dy2;
        if !fits(inc) {
            return None;
        }
        let d3 = d2 + inc;
        if !fits(d3) {
            return None;
        }
        Some((x, y2, d3, dx, dy2))
    } else {
        let x2 = x + 1;
        let two_ry = 2 * ry;
        if !fits(x2) || !fits(two_ry) {
            return None;
        }
        let two_ry2 = product(two_ry, ry);
        if !fits(two_ry2) {
            return None;
        }
        let dx2 = dx + two_ry2;
        if !fits(dx2) {
            return None;
        }
        let diff = dx2 - dy2;
        if !fits(diff) {
            return None;
        }
        let inc = diff + rx2;
        if !fits(inc) {
            return None;
        }
        let d3 = d2 + inc;
        if !fits(d3) {
            return None;
        }
        Some((x2, y2, d3, dx2, dy2))
    }
}

/// Whether one quadrant of an ellipse with these radii can be computed.
pub fn ellipse_points_fit(x_radius: i32, y_radius: i32) -> (ok: bool)
    ensures
        ok == ellipse_points_spec(x_radius, y_radius) is Some,
{
    let (rx, ry) = (x_radius as i64, y_radius as i64);
    let ghost (srx, sry) = (rx as int, ry as int);
    // The first loop's starting state.
    let ry2 = product(ry, ry);
    let rx2 = product(rx, rx);
    if !fits(ry2) || !fits(rx2) {
        return false;
    }
    let rx2ry = product(rx2, ry);
    if !fits(rx2ry) {
        return false;
    }
    let t = ry2 - rx2ry;
    if !fits(t) {
        return false;
    }
    let d1 = t + rx2;
    let two_ry = 2 * ry;
    let two_rx = 2 * rx;
    if !fits(d1) || !fits(two_ry) || !fits(two_rx) {
        return false;
    }
    let two_ry2 = product(two_ry, ry);
    let two_rx2 = product(two_rx, rx);
    if !fits(two_ry2) || !fits(two_rx2) {
        return false;
    }
    let dy0 = product(two_rx2, ry);
    if !fits(dy0) {
        return false;
    }
    assert(ellipse_start(srx, sry) == Some((0int, sry, d1 as int, 0int, dy0 as int)));

    let mut s: (i64, i64, i64, i64, i64) = (0, ry, d1, 0, dy0);
    while s.3 < s.4 && ry != 0
        invariant
            in_i32(s.0 as int) && in_i32(s.1 as int) && in_i32(s.2 as int) && in_i32(s.3 as int) && in_i32(s.4 as int),
            in_i32(rx as int) && in_i32(ry as int),
            srx == rx && sry == ry,
            (ellipse_points_spec(x_radius, y_radius) is Some) == ellipse_tail1(
                (s.0 as int, s.1 as int, s.2 as int, s.3 as int, s.4 as int),
                srx,
                sry,
            ),
        decreases ellipse_measure1((s.0 as int, s.1 as int, s.2 as int, s.3 as int, s.4 as int)),
    {
        proof {
            assert((2 * sry) * sry > 0) by (nonlinear_arith)
                requires
                    sry != 0,
            ;
            assert((2 * srx) * srx >= 0) by (nonlinear_arith);
        }
        match ellipse_step1_of(s, rx, ry) {
            None => return false,
            Some(t) => {
                s = t;
            },
        }
    }

    // The second loop's starting decision value.
    let (x, y) = (s.0, s.1);
    let xx = product(x, x);
    if !fits(xx) {
        return false;
    }
    let xx_x = xx + x;
    if !fits(xx_x) {
        return false;
    }
    let a = product(ry2, xx_x);
    let ym = y - 1;
    if !fits(a) || !fits(ym) {
        return false;
    }
    let b1 = product(rx2, ym);
    if !fits(b1) {
        return false;
    }
    let b = product(b1, ym);
    if !fits(b) {
        return false;
    }
    let ab = a + b;
    let c1 = product(rx2, ry);
    if !fits(ab) || !fits(c1) {
        return false;
    }
    let c = product(c1, ry);
    if !fits(c) {
        return false;
    }
    let d2 = ab - c;
    if !fits(d2) {
        return false;
    }
    assert(ellipse_d2(x as int, y as int, srx, sry) == Some(d2 as int));

    let mut s2: (i64, i64, i64, i64, i64) = (x, y, d2, s.3, s.4);
    while s2.1 >= 0
        invariant
            in_i32(s2.0 as int) && in_i32(s2.1 as int) && in_i32(s2.2 as int) && in_i32(s2.3 as int) && in_i32(
                s2.4 as int,
            ),
            in_i32(rx as int) && in_i32(ry as int),
            srx == rx && sry == ry,
            (ellipse_points_spec(x_radius, y_radius) is Some) == ellipse_run2(
                (s2.0 as int, s2.1 as int, s2.2 as int, s2.3 as int, s2.4 as int),
                srx,
                sry,
            ) is Some,
        decreases (if s2.1 >= 0 { s2.1 + 1 } else { 0 }) as nat,
    {
        match ellipse_step2_of(s2, rx, ry) {
            None => return false,
            Some(t) => {
                s2 = t;
            },
        }
    }
    true
}

/// The radius a rounded rectangle is drawn with.
fn clamped_radius_of(width: u32, height: u32, radius: u32) -> (r: u32)
    ensures
        r == clamped_radius(width, height, radius),
{
    let half = (if width <= height { width } else { height }) / 2;
    if radius <= half { radius } else { half }
}

/// A side of a rounded rectangle less its two corners.
fn inner_len_of(len: u32, r: u32) -> (n: u32)
    ensures
        n == inner_len(len, r as int),
{
    if len as u64 >= 2 * r as u64 { (len as u64 - 2 * r as u64) as u32 } else { 0 }
}

impl GraphicsState {
    /// Whether the eight corner pixels of a rounded rectangle for one octant point fit in
    /// `i32`.
    fn round_rect_point_fits(&self, x: i32, y: i32, r: u32, iw: i32, ih: i32, pt: (i32, i32)) -> (ok: bool)
        ensures
            ok == self.round_rect_point_ok(x, y, r as int, iw as int, ih as int, pt),
    {
        let (px, py) = self.camera.translate(pt.0, pt.1);
        let (x, y, r, iw, ih, px, py) = (x as i64, y as i64, r as i64, iw as i64, ih as i64, px as i64, py as i64);
        fits(x + r - px) && fits(y + r + py) && fits(x + r + py) && fits(y + r - px) && fits(x + iw + r + px)
            && fits(x + iw + r - py) && fits(y + ih + r - py) && fits(y + ih + r + px)
    }

    /// Whether `draw_round_rectangle` can draw this rectangle.
    pub fn round_rect_fits(&self, x: i32, y: i32, width: u32, height: u32, radius: u32) -> (ok: bool)
        ensures
            ok == self.round_rect_ok(x, y, width, height, radius),
    {
        let r = clamped_radius_of(width, height, radius);
        let inner_w = inner_len_of(width, r);
        let iw = inner_w as i32;
        let ih = inner_len_of(height, r) as i32;
        if !octant_points_fit(r) {
            return false;
        }
        let pts = self.draw_circle_octant_points(r);
        let mut i: usize = 0;
        while i < pts.len()
            invariant
                pts@ == octant_points_spec(r)->0,
                r == clamped_radius(width, height, radius),
                iw == (inner_len(width, r as int) as u32) as i32,
                ih == (inner_len(height, r as int) as u32) as i32,
                i <= pts@.len(),
                forall|k: int| 0 <= k < i ==> self.round_rect_point_ok(x, y, r as int, iw as int, ih as int, #[trigger] pts@[k]),
            decreases pts@.len() - i,
        {
            if !self.round_rect_point_fits(x, y, r, iw, ih, pts[i]) {
                proof {
                    let rs = clamped_radius(width, height, radius);
                    assert(rs as u32 == r);
                    assert(octant_points_spec(rs as u32)->0[i as int] == pts@[i as int]);
                    assert(!self.round_rect_point_ok(x, y, rs, iw as int, ih as int, octant_points_spec(rs as u32)->0[i as int]));
                }
                return false;
            }
            i = i + 1;
        }
        let (x6, y6, r6, iw6, ih6) = (x as i64, y as i64, r as i64, iw as i64, ih as i64);
        if !(fits(x6 + r6) && fits(y6 + r6) && fits(x6 + iw6) && fits(x6 + iw6 + r6) && fits(y6 + ih6) && fits(
            y6 + ih6 + r6,
        ) && fits(y6 + ih6 + r6 * 2) && fits(x6 + iw6 + r6 * 2) && fits(r6 * 2)) {
            return false;
        }
        self.hline_fits((x6 + r6) as i32, y, inner_w) && self.hline_fits(
            (x6 + r6) as i32,
            (y6 + ih6 + r6 * 2) as i32,
            inner_w,
        )
    }

    /// Whether the four spans that fill the corners of a rounded rectangle for one octant
    /// point can be drawn.
    fn filled_round_rect_point_fits(&self, x: i32, y: i32, r: u32, iw: i32, ih: i32, pt: (i32, i32)) -> (ok: bool)
        ensures
            ok == self.filled_round_rect_point_ok(x, y, r as int, iw as int, ih as int, pt),
    {
        let (px, py) = (pt.0 as i64, pt.1 as i64);
        let (x, y, r, iw, ih) = (x as i64, y as i64, r as i64, iw as i64, ih as i64);
        let cx = x + r;
        if !(fits(cx - px) && fits(cx + py) && fits(2 * px) && fits(2 * py) && fits(iw + 2 * px) && fits(iw - 2 * py)
            && fits(y + r + py) && fits(y + ih + r - py) && fits(y + r - px) && fits(y + ih + r + px)) {
            return false;
        }
        self.hline_fits((cx - px) as i32, (y + r + py) as i32, (iw + 2 * px) as u32) && self.hline_fits(
            (cx - px) as i32,
            (y + ih + r - py) as i32,
            (iw + 2 * px) as u32,
        ) && self.hline_fits((cx + py) as i32, (y + r - px) as i32, (iw - 2 * py) as u32) && self.hline_fits(
            (cx + py) as i32,
            (y + ih + r + px) as i32,
            (iw - 2 * py) as u32,
        )
    }

    /// Whether `draw_filled_round_rectangle` can draw this rectangle.
    pub fn filled_round_rect_fits(&self, x: i32, y: i32, width: u32, height: u32, radius: u32) -> (ok: bool)
        ensures
            ok == self.filled_round_rect_ok(x, y, width, height, radius),
    {
        let r = clamped_radius_of(width, height, radius);
        let iw = inner_len_of(width, r) as i32;
        let inner_h = inner_len_of(height, r);
        let ih = inner_h as i32;
        if !octant_points_fit(r) {
            return false;
        }
        let pts = self.draw_circle_octant_points(r);
        let mut i: usize = 0;
        while i < pts.len()
            invariant
                pts@ == octant_points_spec(r)->0,
                r == clamped_radius(width, height, radius),
                iw == (inner_len(width, r as int) as u32) as i32,
                ih == (inner_len(height, r as int) as u32) as i32,
                i <= pts@.len(),
                forall|k: int|
                    0 <= k < i ==> self.filled_round_rect_point_ok(x, y, r as int, iw as int, ih as int, #[trigger] pts@[k]),
            decreases pts@.len() - i,
        {
            if !self.filled_round_rect_point_fits(x, y, r, iw, ih, pts[i]) {
                proof {
                    let rs = clamped_radius(width, height, radius);
                    assert(rs as u32 == r);
                    assert(octant_points_spec(rs as u32)->0[i as int] == pts@[i as int]);
                    assert(!self.filled_round_rect_point_ok(x, y, rs, iw as int, ih as int, octant_points_spec(rs as u32)->0[i as int]));
                }
                return false;
            }
            i = i + 1;
        }
        let (x6, y6, r6, ih6) = (x as i64, y as i64, r as i64, ih as i64);
        if !(fits(x6 + r6) && fits(y6 + r6) && fits(y6 + ih6) && fits(y6 + ih6 + r6)) {
            return false;
        }
        self.filled_rect_fits(x, (y6 + r6) as i32, width, inner_h)
    }

    /// Whether `draw_ellipse` can draw this ellipse.
    pub fn ellipse_fits(&self, cx: i32, cy: i32, x_radius: u32, y_radius: u32) -> (ok: bool)
        ensures
            ok == {
                &&& ellipse_points_spec(x_radius as i32, y_radius as i32) is Some
                &&& forall|i: int| 0 <= i < ellipse_points_spec(x_radius as i32, y_radius as i32)->0.len() ==>
                    ellipse_point_ok(translate_spec(self.camera, cx, cy),
                        #[trigger] ellipse_points_spec(x_radius as i32, y_radius as i32)->0[i])
            },
    {
        if !ellipse_points_fit(x_radius as i32, y_radius as i32) {
            return false;
        }
        let pts = self.draw_ellipse_quardrant_points(x_radius as i32, y_radius as i32);
        let c = self.camera.translate(cx, cy);
        let mut i: usize = 0;
        while i < pts.len()
            invariant
                pts@ == ellipse_points_spec(x_radius as i32, y_radius as i32)->0,
                c == translate_spec(self.camera, cx, cy),
                i <= pts@.len(),
                forall|k: int| 0 <= k < i ==> ellipse_point_ok(c, #[trigger] pts@[k]),
            decreases pts@.len() - i,
        {
            let (px, py) = (pts[i].0 as i64, pts[i].1 as i64);
            let (c0, c1) = (c.0 as i64, c.1 as i64);
            if !(fits(c0 + px) && fits(c0 - px) && fits(c1 + py) && fits(c1 - py)) {
                return false;
            }
            i = i + 1;
        }
        true
    }

    /// Whether `draw_filled_ellipse` can draw this ellipse.
    pub fn filled_ellipse_fits(&self, cx: i32, cy: i32, x_radius: u32, y_radius: u32) -> (ok: bool)
        ensures
            ok == {
                &&& ellipse_points_spec(x_radius as i32, y_radius as i32) is Some
                &&& forall|i: int| 0 <= i < ellipse_points_spec(x_radius as i32, y_radius as i32)->0.len() ==>
                    self.filled_ellipse_point_ok(cx, cy, #[trigger] ellipse_points_spec(x_radius as i32, y_radius as i32)->0[i])
            },
    {
        if !ellipse_points_fit(x_radius as i32, y_radius as i32) {
            return false;
        }
        let pts = self.draw_ellipse_quardrant_points(x_radius as i32, y_radius as i32);
        let mut i: usize = 0;
        while i < pts.len()
            invariant
                pts@ == ellipse_points_spec(x_radius as i32, y_radius as i32)->0,
                i <= pts@.len(),
                forall|k: int| 0 <= k < i ==> self.filled_ellipse_point_ok(cx, cy, #[trigger] pts@[k]),
            decreases pts@.len() - i,
        {
            let (x, y) = (pts[i].0 as i64, pts[i].1 as i64);
            let (cx6, cy6) = (cx as i64, cy as i64);
            let px = cx6 - x;
            if !(fits(px) && fits(cx6 + x) && fits(cx6 + x - px) && fits(cx6 + x - px + 1) && fits(cy6 + y) && fits(
                cy6 - y,
            )) {
                return false;
            }
            let len = (cx6 + x - px + 1) as u32;
            if !(self.hline_fits(px as i32, (cy6 + y) as i32, len) && self.hline_fits(px as i32, (cy6 - y) as i32, len)) {
                return false;
            }
            i = i + 1;
        }
        true
    }

    /// Whether `draw_sprite` can draw a sprite of `sprite_len` bytes with these dimensions.
    pub fn sprite_fits(&self, x: i32, y: i32, sprite: &[u8], width: u32, height: u32) -> (ok: bool)
        ensures
            ok == self.sprite_ok(x, y, sprite@, width, height),
    {
        assert(width as u64 * height as u64 <= 0xffff_fffe_0000_0001) by (nonlinear_arith)
            requires
                width <= 0xffff_ffff,
                height <= 0xffff_ffff,
        ;
        if (sprite.len() as u64) < width as u64 * height as u64 {
            return false;
        }
        let (y0, _, rows) = if y < 0 {
            let off = unsigned_abs(y);
            (0i32, off, if height >= off { height - off } else { 0 })
        } else {
            (y, 0u32, height)
        };
        let ghost st = Self::sprite_start(y, height);
        assert(st.0 == y0 && st.2 == rows);
        let mut i: u32 = 0;
        while i < rows
            invariant
                st == Self::sprite_start(y, height),
                st.0 == y0 && st.2 == rows,
                i <= rows,
                forall|k: int| 0 <= k < i ==> #[trigger] in_i32(st.0 + (k as i32))
                    && self.line_bytes_ok(x, (st.0 + (k as i32)) as i32, width as nat),
            decreases rows - i,
        {
            let yi = y0 as i64 + (i as i32) as i64;
            if !fits(yi) || !self.hline_fits(x, yi as i32, width) {
                proof {
                    let k = i as int;
                    assert(!(in_i32(st.0 + (k as i32)) && self.line_bytes_ok(x, (st.0 + (k as i32)) as i32, width as nat)));
                }
                return false;
            }
            let ghost i0 = i as int;
            assert(in_i32(st.0 + (i0 as i32)) && self.line_bytes_ok(x, (st.0 + (i0 as i32)) as i32, width as nat));
            i = i + 1;
            assert forall|k: int| 0 <= k < i implies #[trigger] in_i32(st.0 + (k as i32))
                && self.line_bytes_ok(x, (st.0 + (k as i32)) as i32, width as nat) by {
                if k == i0 {
                }
            }
        }
        assert(self.sprite_ok(x, y, sprite@, width, height));
        true
    }

    /// Whether `draw_circle` can draw this circle.
    pub fn circle_fits(&self, cx: i32, cy: i32, radius: u32) -> (r: bool)
        ensures
            r == {
                &&& octant_points_spec(radius) is Some
                &&& forall|i: int| 0 <= i < octant_points_spec(radius)->0.len() ==> circle_point_ok(
                    translate_spec(self.camera, cx, cy),
                    #[trigger] octant_points_spec(radius)->0[i],
                )
            },
    {
        if !octant_points_fit(radius) {
            return false;
        }
        let pts = self.draw_circle_octant_points(radius);
        let c = self.camera.translate(cx, cy);
        let mut i: usize = 0;
        while i < pts.len()
            invariant
                pts@ == octant_points_spec(radius)->0,
                c == translate_spec(self.camera, cx, cy),
                i <= pts@.len(),
                forall|k: int| 0 <= k < i ==> circle_point_ok(c, #[trigger] pts@[k]),
            decreases pts@.len() - i,
        {
            if !circle_point_fits(c, pts[i]) {
                return false;
            }
            i = i + 1;
        }
        true
    }

    /// Whether `draw_filled_circle` can draw this circle.
    pub fn filled_circle_fits(&self, cx: i32, cy: i32, radius: u32) -> (r: bool)
        ensures
            r == {
                &&& octant_points_spec(radius) is Some
                &&& forall|i: int| 0 <= i < octant_points_spec(radius)->0.len() ==>
                    self.filled_circle_point_ok(cx, cy, #[trigger] octant_points_spec(radius)->0[i])
            },
    {
        if !octant_points_fit(radius) {
            return false;
        }
        let pts = self.draw_circle_octant_points(radius);
        let mut i: usize = 0;
        while i < pts.len()
            invariant
                pts@ == octant_points_spec(radius)->0,
                i <= pts@.len(),
                forall|k: int| 0 <= k < i ==> self.filled_circle_point_ok(cx, cy, #[trigger] pts@[k]),
            decreases pts@.len() - i,
        {
            if !self.filled_circle_point_fits(cx, cy, pts[i]) {
                return false;
            }
            i = i + 1;
        }
        true
    }

    /// Whether the four spans that fill a circle for one octant point can be drawn.
    fn filled_circle_point_fits(&self, cx: i32, cy: i32, pt: (i32, i32)) -> (r: bool)
        ensures
            r == self.filled_circle_point_ok(cx, cy, pt),
    {
        let (x, y) = (pt.0 as i64, pt.1 as i64);
        let (cx, cy) = (cx as i64, cy as i64);
        if !(fits(cx - x) && fits(2 * x) && fits(cy + y) && fits(cy - y) && fits(cx + y) && fits(-y) && fits(2 * -y)
            && fits(cy + x) && fits(cy - x)) {
            return false;
        }
        self.hline_fits((cx - x) as i32, (cy + y) as i32, (2 * x) as u32)
            && self.hline_fits((cx - x) as i32, (cy - y) as i32, (2 * x) as u32)
            && self.hline_fits((cx + y) as i32, (cy + x) as i32, (2 * -y) as u32)
            && self.hline_fits((cx + y) as i32, (cy - x) as i32, (2 * -y) as u32)
    }

    /// Whether `draw_hline` can draw this line.
    pub fn hline_fits(&self, x: i32, y: i32, width: u32) -> (r: bool)
        ensures
            r == self.hline_ok(x, y, width),
    {
        let (tx, ty) = self.camera.translate(x, y);
        if !self.draw_region.inside_height(ty) {
            return true;
        }
        let (cx, _, _) = self.draw_region.clamp_width(tx, width);
        let w = self.draw_region.width as i32;
        assert(ty as i64 * w as i64 == ty * w) by (nonlinear_arith);
        assert(-0x8000_0000 * 0x8000_0000 <= ty * w <= 0x8000_0000 * 0x8000_0000) by (nonlinear_arith)
            requires
                i32::MIN <= ty <= i32::MAX,
                i32::MIN <= w <= i32::MAX,
        ;
        fits(cx as i64 + ty as i64 * w as i64)
    }

    /// Whether `draw_rectangle` can draw this rectangle.
    pub fn rect_fits(&self, x: i32, y: i32, width: u32, height: u32) -> (r: bool)
        ensures
            r == {
                &&& in_i32(y + (sat_dec(height) as i32))
                &&& in_i32(x + (sat_dec(width) as i32))
                &&& self.hline_ok(x, y, width)
                &&& self.hline_ok(x, (y + (sat_dec(height) as i32)) as i32, width)
            },
    {
        let dh: u32 = if height == 0 { 0 } else { height - 1 };
        let dw: u32 = if width == 0 { 0 } else { width - 1 };
        let y2 = y as i64 + dh as i32 as i64;
        let x2 = x as i64 + dw as i32 as i64;
        if !fits(y2) || !fits(x2) {
            return false;
        }
        self.hline_fits(x, y, width) && self.hline_fits(x, y2 as i32, width)
    }

    /// Whether `draw_filled_rectangle` can draw this rectangle.
    #[verifier::spinoff_prover]
    pub fn filled_rect_fits(&self, x: i32, y: i32, width: u32, height: u32) -> (r: bool)
        ensures
            r == self.filled_rect_ok(x, y, width, height),
    {
        let (_, ty) = self.camera.translate(x, y);
        let (_, h, offset) = self.draw_region.clamp_height(ty, height);
        let ghost c = DrawRegion::clamp_spec(ty, height, self.draw_region.height);
        let end: u64 = offset as u64 + h as u64;
        let mut j: u64 = offset as u64;
        while j < end
            invariant
                c == DrawRegion::clamp_spec(ty, height, self.draw_region.height),
                end == c.2 + c.1,
                c.2 <= j <= end,
                ty == translate_spec(self.camera, x, y).1,
                forall|k: int| c.2 <= k < j ==> #[trigger] in_i32(y + k) && self.hline_ok(x, (y + k) as i32, width),
            decreases end - j,
        {
            let yj = y as i64 + j as i64;
            if !fits(yj) || !self.hline_fits(x, yj as i32, width) {
                proof {
                    let k = j as int;
                    assert(c.2 <= k < c.2 + c.1);
                    assert(!(in_i32(y + k) && self.hline_ok(x, (y + k) as i32, width)));
                }
                return false;
            }
            let ghost j0 = j as int;
            assert(in_i32(y + j0) && self.hline_ok(x, (y + j0) as i32, width));
            j = j + 1;
            assert forall|k: int| c.2 <= k < j implies #[trigger] in_i32(y + k) && self.hline_ok(x, (y + k) as i32, width) by {
                if k < j0 {
                } else {
                    assert(k == j0);
                }
            }
        }
        assert(self.filled_rect_ok(x, y, width, height));
        true
    }

    /// Whether `draw_line` and `line_points` can compute this line.
    pub fn line_fits(&self, x1: i32, y1: i32, x2: i32, y2: i32) -> (r: bool)
        ensures
            r == line_points_spec(self.camera, x1, y1, x2, y2) is Some,
    {
        let (ax, ay) = self.camera.translate(x1, y1);
        let (bx, by) = self.camera.translate(x2, y2);
        let rise = by as i64 - ay as i64;
        let run = bx as i64 - ax as i64;
        if !fits(rise) || !fits(rise * 2) || !fits(run) || !fits(rise * 2 - run) || !fits(bx as i64 + 1) {
            return false;
        }
        let m = rise * 2;
        let x_end = bx as i64 + 1;
        let mut x = ax as i64;
        let mut yy = ay as i64;
        let mut err = m - run;
        while x < x_end
            invariant
                in_i32(m as int),
                in_i32(x_end as int),
                in_i32(x as int) || x == x_end,
                in_i32(yy as int),
                in_i32(err as int),
                x <= x_end || (x >= x_end && x == ax),
                (line_points_spec(self.camera, x1, y1, x2, y2) is Some) == (line_run(
                    x as int,
                    x_end as int,
                    yy as int,
                    err as int,
                    m as int,
                ) is Some),
            decreases x_end - x,
        {
            let e1 = err + m;
            let y_next = if e1 >= 0 { yy + 1 } else { yy };
            let e2 = if e1 >= 0 { e1 - m } else { e1 };
            if !fits(e1) || !fits(y_next) || !fits(e2) {
                return false;
            }
            x = x + 1;
            yy = y_next;
            err = e2;
        }
        true
    }
}

} // verus!
