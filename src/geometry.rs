use vstd::prelude::*;

verus! {

/// A point in frame coordinates.
#[derive(Debug, Clone, Copy, PartialEq, Eq, Structural)]
pub struct Point {
    pub x: i32,
    pub y: i32,
}

/// An axis-aligned rectangle in frame coordinates.
#[derive(Debug, Clone, Copy, PartialEq, Eq, Structural)]
pub struct Rect {
    pub x: i32,
    pub y: i32,
    pub width: i32,
    pub height: i32,
}

/// A line segment between two points.
#[derive(Debug, Clone, Copy, PartialEq, Eq, Structural)]
pub struct Segment {
    pub a: Point,
    pub b: Point,
}

/// Frame geometry: width and height in pixels.
#[derive(Debug, Clone, Copy, PartialEq, Eq, Structural)]
pub struct Size {
    pub width: i32,
    pub height: i32,
}

/// A frame as the library sees it: the address of the pixel buffer held by
/// the imaging layer (zero for none), its geometry and its channel count.
#[derive(Debug, Clone, Copy, PartialEq, Eq, Structural)]
pub struct AnprImage {
    pub ptr: usize,
    pub width: i32,
    pub height: i32,
    pub channels: i32,
}

impl AnprImage {
    /// No pixel buffer, or no pixels.
    pub open spec fn spec_is_empty(&self) -> bool {
        self.ptr == 0 || self.width <= 0 || self.height <= 0
    }

    /// The address of the pixel buffer.
    pub fn as_ptr(&self) -> (r: usize)
        ensures
            r == self.ptr,
    {
        self.ptr
    }

    /// The address of the pixel buffer, for a call that writes into it.
    pub fn as_mut_ptr(&mut self) -> (r: usize)
        ensures
            r == old(self).ptr,
            *final(self) == *old(self),
    {
        self.ptr
    }

    /// The frame geometry.
    pub fn get_size(&self) -> (r: Size)
        ensures
            r == (Size { width: self.width, height: self.height }),
    {
        Size { width: self.width, height: self.height }
    }

    /// Whether the frame has no pixel buffer or no pixels.
    pub fn is_empty(&self) -> (r: bool)
        ensures
            r == self.spec_is_empty(),
    {
        self.ptr == 0 || self.width <= 0 || self.height <= 0
    }
}

/// Twice the x coordinate of a rectangle's centre (kept doubled to stay integral).
pub open spec fn centre2_x(r: Rect) -> int {
    2 * r.x + r.width
}

/// Twice the y coordinate of a rectangle's centre.
pub open spec fn centre2_y(r: Rect) -> int {
    2 * r.y + r.height
}

/// Cross product of (a - o) and (b - o): positive when o, a, b turn left.
pub open spec fn cross(ox: int, oy: int, ax: int, ay: int, bx: int, by: int) -> int {
    (ax - ox) * (by - oy) - (ay - oy) * (bx - ox)
}

/// Orientation of a doubled point against a segment (endpoints doubled too).
pub open spec fn side_of(s: Segment, px: int, py: int) -> int {
    cross(2 * s.a.x, 2 * s.a.y, 2 * s.b.x, 2 * s.b.y, px, py)
}

/// A plate moving from the centre of `from` to the centre of `to` crosses
/// segment `s`: the centre passes from the non-left to the strict-left side of
/// the segment's line, or back, and the motion passes between the segment's
/// endpoints (neither endpoint lies strictly on one side of the motion).
pub open spec fn crosses(s: Segment, from: Rect, to: Rect) -> bool {
    let px = centre2_x(from);
    let py = centre2_y(from);
    let qx = centre2_x(to);
    let qy = centre2_y(to);
    let e1 = cross(px, py, qx, qy, 2 * s.a.x, 2 * s.a.y);
    let e2 = cross(px, py, qx, qy, 2 * s.b.x, 2 * s.b.y);
    &&& (side_of(s, px, py) > 0) != (side_of(s, qx, qy) > 0)
    &&& !(e1 > 0 && e2 > 0)
    &&& !(e1 < 0 && e2 < 0)
}

/// `x` lies between `a` and `b`, bounds included.
pub open spec fn between(a: int, x: int, b: int) -> bool {
    (a <= x <= b) || (b <= x <= a)
}

/// The centre of `r` lies on the straight path from the centre of `p` to
/// that of `q`.
pub open spec fn on_path(p: Rect, r: Rect, q: Rect) -> bool {
    &&& cross(centre2_x(p), centre2_y(p), centre2_x(q), centre2_y(q), centre2_x(r), centre2_y(r)) == 0
    &&& between(centre2_x(p), centre2_x(r), centre2_x(q))
    &&& between(centre2_y(p), centre2_y(r), centre2_y(q))
}

/// Crossings counted for one move.
pub open spec fn crossing_count(s: Segment, from: Rect, to: Rect) -> nat {
    if crosses(s, from, to) { 1 } else { 0 }
}

proof fn lemma_interpolate(d: int, c1: int, c2: int, sr: int, sp: int, sq: int)
    requires
        d == c1 + c2,
        d != 0,
        d > 0 ==> c1 >= 0 && c2 >= 0,
        d < 0 ==> c1 <= 0 && c2 <= 0,
        d * sr == c1 * sp + c2 * sq,
    ensures
        sp > 0 && sq > 0 ==> sr > 0,
        sp <= 0 && sq <= 0 ==> sr <= 0,
{
    if d > 0 {
        if sp > 0 && sq > 0 {
            assert(c1 * sp + c2 * sq > 0) by (nonlinear_arith)
                requires c1 >= 0, c2 >= 0, c1 + c2 > 0, sp > 0, sq > 0;
            assert(sr > 0) by (nonlinear_arith) requires d > 0, d * sr > 0;
        }
        if sp <= 0 && sq <= 0 {
            assert(c1 * sp + c2 * sq <= 0) by (nonlinear_arith)
                requires c1 >= 0, c2 >= 0, sp <= 0, sq <= 0;
            assert(sr <= 0) by (nonlinear_arith) requires d > 0, d * sr <= 0;
        }
    } else {
        if sp > 0 && sq > 0 {
            assert(c1 * sp + c2 * sq < 0) by (nonlinear_arith)
                requires c1 <= 0, c2 <= 0, c1 + c2 < 0, sp > 0, sq > 0;
            assert(sr > 0) by (nonlinear_arith) requires d < 0, d * sr < 0;
        }
        if sp <= 0 && sq <= 0 {
            assert(c1 * sp + c2 * sq >= 0) by (nonlinear_arith)
                requires c1 <= 0, c2 <= 0, sp <= 0, sq <= 0;
            assert(sr <= 0) by (nonlinear_arith) requires d < 0, d * sr >= 0;
        }
    }
}

proof fn lemma_scaled_sign(d: int, c: int, e: int, f: int)
    requires
        d * f == c * e,
        (d > 0 && c > 0) || (d < 0 && c < 0),
    ensures
        f > 0 <==> e > 0,
        f < 0 <==> e < 0,
{
    if d > 0 {
        if e > 0 { assert(c * e > 0) by (nonlinear_arith) requires c > 0, e > 0; assert(f > 0) by (nonlinear_arith) requires d > 0, d * f > 0; }
        if e < 0 { assert(c * e < 0) by (nonlinear_arith) requires c > 0, e < 0; assert(f < 0) by (nonlinear_arith) requires d > 0, d * f < 0; }
        if e == 0 { assert(f == 0) by (nonlinear_arith) requires d > 0, d * f == c * e, e == 0; }
    } else {
        if e > 0 { assert(c * e < 0) by (nonlinear_arith) requires c < 0, e > 0; assert(f > 0) by (nonlinear_arith) requires d < 0, d * f < 0; }
        if e < 0 { assert(c * e > 0) by (nonlinear_arith) requires c < 0, e < 0; assert(f < 0) by (nonlinear_arith) requires d < 0, d * f > 0; }
        if e == 0 { assert(f == 0) by (nonlinear_arith) requires d < 0, d * f == c * e, e == 0; }
    }
}

/// Splitting one move at a point on its path: the sides and the endpoint tests
/// of the two halves follow from those of the whole move. `d`, `c1`, `c2` are
/// the whole move and its two parts along one coordinate.
proof fn lemma_split_move(
    ax: int, ay: int, bx: int, by: int,
    px: int, py: int, rx: int, ry: int, qx: int, qy: int,
    d: int, c1: int, c2: int,
)
    requires
        d == c1 + c2,
        d != 0,
        d > 0 ==> c1 >= 0 && c2 >= 0,
        d < 0 ==> c1 <= 0 && c2 <= 0,
        d * cross(ax, ay, bx, by, rx, ry) == c1 * cross(ax, ay, bx, by, px, py) + c2 * cross(ax, ay, bx, by, qx, qy),
        d * cross(px, py, rx, ry, ax, ay) == c2 * cross(px, py, qx, qy, ax, ay),
        d * cross(px, py, rx, ry, bx, by) == c2 * cross(px, py, qx, qy, bx, by),
        d * cross(rx, ry, qx, qy, ax, ay) == c1 * cross(px, py, qx, qy, ax, ay),
        d * cross(rx, ry, qx, qy, bx, by) == c1 * cross(px, py, qx, qy, bx, by),
        c2 == 0 ==> px == rx && py == ry,
        c1 == 0 ==> qx == rx && qy == ry,
    ensures
        ({
            let sp = cross(ax, ay, bx, by, px, py) > 0;
            let sr = cross(ax, ay, bx, by, rx, ry) > 0;
            let sq = cross(ax, ay, bx, by, qx, qy) > 0;
            let st = |e1: int, e2: int| !(e1 > 0 && e2 > 0) && !(e1 < 0 && e2 < 0);
            let whole = sp != sq && st(cross(px, py, qx, qy, ax, ay), cross(px, py, qx, qy, bx, by));
            let first = sp != sr && st(cross(px, py, rx, ry, ax, ay), cross(px, py, rx, ry, bx, by));
            let second = sr != sq && st(cross(rx, ry, qx, qy, ax, ay), cross(rx, ry, qx, qy, bx, by));
            (if whole { 1int } else { 0 }) == (if first { 1int } else { 0 }) + (if second { 1int } else { 0 })
        }),
{
    lemma_interpolate(d, c1, c2, cross(ax, ay, bx, by, rx, ry), cross(ax, ay, bx, by, px, py), cross(ax, ay, bx, by, qx, qy));
    if c2 != 0 {
        lemma_scaled_sign(d, c2, cross(px, py, qx, qy, ax, ay), cross(px, py, rx, ry, ax, ay));
        lemma_scaled_sign(d, c2, cross(px, py, qx, qy, bx, by), cross(px, py, rx, ry, bx, by));
    }
    if c1 != 0 {
        lemma_scaled_sign(d, c1, cross(px, py, qx, qy, ax, ay), cross(rx, ry, qx, qy, ax, ay));
        lemma_scaled_sign(d, c1, cross(px, py, qx, qy, bx, by), cross(rx, ry, qx, qy, bx, by));
    }
}

/// With `r` the weighted mean `(c1 * p + c2 * q) / d` of `p` and `q`, the
/// side of `r` and the orientations of the two part moves are the same
/// weighted means of those of the whole move.
proof fn lemma_weighted(
    ax: int, ay: int, bx: int, by: int,
    px: int, py: int, rx: int, ry: int, qx: int, qy: int,
    d: int, c1: int, c2: int,
)
    requires
        d == c1 + c2,
        d * rx == c1 * px + c2 * qx,
        d * ry == c1 * py + c2 * qy,
        (qx - px) * (ry - py) == (qy - py) * (rx - px),
    ensures
        d * cross(ax, ay, bx, by, rx, ry) == c1 * cross(ax, ay, bx, by, px, py) + c2 * cross(ax, ay, bx, by, qx, qy),
        d * cross(px, py, rx, ry, ax, ay) == c2 * cross(px, py, qx, qy, ax, ay),
        d * cross(px, py, rx, ry, bx, by) == c2 * cross(px, py, qx, qy, bx, by),
        d * cross(rx, ry, qx, qy, ax, ay) == c1 * cross(px, py, qx, qy, ax, ay),
        d * cross(rx, ry, qx, qy, bx, by) == c1 * cross(px, py, qx, qy, bx, by),
{
    let u = bx - ax;
    let v = by - ay;
    assert(d * (ry - ay) == c1 * (py - ay) + c2 * (qy - ay)) by (nonlinear_arith)
        requires d == c1 + c2, d * ry == c1 * py + c2 * qy;
    assert(d * (rx - ax) == c1 * (px - ax) + c2 * (qx - ax)) by (nonlinear_arith)
        requires d == c1 + c2, d * rx == c1 * px + c2 * qx;
    assert(d * (u * (ry - ay)) == c1 * (u * (py - ay)) + c2 * (u * (qy - ay))) by (nonlinear_arith)
        requires d * (ry - ay) == c1 * (py - ay) + c2 * (qy - ay);
    assert(d * (v * (rx - ax)) == c1 * (v * (px - ax)) + c2 * (v * (qx - ax))) by (nonlinear_arith)
        requires d * (rx - ax) == c1 * (px - ax) + c2 * (qx - ax);
    assert(d * cross(ax, ay, bx, by, rx, ry) == c1 * cross(ax, ay, bx, by, px, py) + c2 * cross(ax, ay, bx, by, qx, qy))
        by (nonlinear_arith)
        requires
            u == bx - ax, v == by - ay,
            d * (u * (ry - ay)) == c1 * (u * (py - ay)) + c2 * (u * (qy - ay)),
            d * (v * (rx - ax)) == c1 * (v * (px - ax)) + c2 * (v * (qx - ax));
    assert(d * (rx - px) == c2 * (qx - px)) by (nonlinear_arith) requires d == c1 + c2, d * rx == c1 * px + c2 * qx;
    assert(d * (ry - py) == c2 * (qy - py)) by (nonlinear_arith) requires d == c1 + c2, d * ry == c1 * py + c2 * qy;
    assert(d * (qx - rx) == c1 * (qx - px)) by (nonlinear_arith) requires d == c1 + c2, d * rx == c1 * px + c2 * qx;
    assert(d * (qy - ry) == c1 * (qy - py)) by (nonlinear_arith) requires d == c1 + c2, d * ry == c1 * py + c2 * qy;
    lemma_weighted_cross(px, py, rx, ry, qx, qy, ax, ay, d, c1, c2);
    lemma_weighted_cross(px, py, rx, ry, qx, qy, bx, by, d, c1, c2);
}

proof fn lemma_weighted_cross(px: int, py: int, rx: int, ry: int, qx: int, qy: int, ex: int, ey: int, d: int, c1: int, c2: int)
    requires
        d * (rx - px) == c2 * (qx - px),
        d * (ry - py) == c2 * (qy - py),
        d * (qx - rx) == c1 * (qx - px),
        d * (qy - ry) == c1 * (qy - py),
        (qx - px) * (ry - py) == (qy - py) * (rx - px),
    ensures
        d * cross(px, py, rx, ry, ex, ey) == c2 * cross(px, py, qx, qy, ex, ey),
        d * cross(rx, ry, qx, qy, ex, ey) == c1 * cross(px, py, qx, qy, ex, ey),
{
    assert(d * ((rx - px) * (ey - py)) == c2 * ((qx - px) * (ey - py))) by (nonlinear_arith)
        requires d * (rx - px) == c2 * (qx - px);
    assert(d * ((ry - py) * (ex - px)) == c2 * ((qy - py) * (ex - px))) by (nonlinear_arith)
        requires d * (ry - py) == c2 * (qy - py);
    assert(d * cross(px, py, rx, ry, ex, ey) == c2 * cross(px, py, qx, qy, ex, ey)) by (nonlinear_arith)
        requires
            d * ((rx - px) * (ey - py)) == c2 * ((qx - px) * (ey - py)),
            d * ((ry - py) * (ex - px)) == c2 * ((qy - py) * (ex - px));
    // the second part move, measured from r
    assert(cross(rx, ry, qx, qy, ex, ey) == (qx - rx) * (ey - py) - (qy - ry) * (ex - px)) by (nonlinear_arith)
        requires (qx - px) * (ry - py) == (qy - py) * (rx - px);
    assert(d * ((qx - rx) * (ey - py)) == c1 * ((qx - px) * (ey - py))) by (nonlinear_arith)
        requires d * (qx - rx) == c1 * (qx - px);
    assert(d * ((qy - ry) * (ex - px)) == c1 * ((qy - py) * (ex - px))) by (nonlinear_arith)
        requires d * (qy - ry) == c1 * (qy - py);
    assert(d * cross(rx, ry, qx, qy, ex, ey) == c1 * cross(px, py, qx, qy, ex, ey)) by (nonlinear_arith)
        requires
            cross(rx, ry, qx, qy, ex, ey) == (qx - rx) * (ey - py) - (qy - ry) * (ex - px),
            d * ((qx - rx) * (ey - py)) == c1 * ((qx - px) * (ey - py)),
            d * ((qy - ry) * (ex - px)) == c1 * ((qy - py) * (ex - px));
}

/// Crossing counts do not depend on the frame rate: observing the plate once
/// more at a point on its path between two observations leaves the number of
/// crossings counted for that stretch unchanged.
pub proof fn lemma_crossings_independent_of_sampling(s: Segment, p: Rect, r: Rect, q: Rect)
    requires
        on_path(p, r, q),
    ensures
        crossing_count(s, p, q) == crossing_count(s, p, r) + crossing_count(s, r, q),
{
    let (ax, ay, bx, by) = (2 * s.a.x, 2 * s.a.y, 2 * s.b.x, 2 * s.b.y);
    let (px, py) = (centre2_x(p), centre2_y(p));
    let (rx, ry) = (centre2_x(r), centre2_y(r));
    let (qx, qy) = (centre2_x(q), centre2_y(q));
    assert((qx - px) * (ry - py) == (qy - py) * (rx - px));
    if qx != px {
        let (d, c1, c2) = (qx - px, qx - rx, rx - px);
        assert(d * rx == c1 * px + c2 * qx) by (nonlinear_arith)
            requires d == qx - px, c1 == qx - rx, c2 == rx - px;
        assert(d * ry == c1 * py + c2 * qy) by (nonlinear_arith)
            requires d == qx - px, c1 == qx - rx, c2 == rx - px, (qx - px) * (ry - py) == (qy - py) * (rx - px);
        lemma_weighted(ax, ay, bx, by, px, py, rx, ry, qx, qy, d, c1, c2);
        if c2 == 0 {
            assert(ry == py) by (nonlinear_arith)
                requires d != 0, (qx - px) * (ry - py) == (qy - py) * (rx - px), c2 == rx - px, c2 == 0, d == qx - px;
        }
        if c1 == 0 {
            assert(ry == qy) by (nonlinear_arith)
                requires d != 0, d == qx - px, c1 == qx - rx, c1 == 0, (qx - px) * (ry - py) == (qy - py) * (rx - px);
        }
        lemma_split_move(ax, ay, bx, by, px, py, rx, ry, qx, qy, d, c1, c2);
    } else if qy != py {
        assert(rx == px);
        let (d, c1, c2) = (qy - py, qy - ry, ry - py);
        assert(d * rx == c1 * px + c2 * qx) by (nonlinear_arith)
            requires d == c1 + c2, rx == px, qx == px;
        assert(d * ry == c1 * py + c2 * qy) by (nonlinear_arith)
            requires d == qy - py, c1 == qy - ry, c2 == ry - py;
        lemma_weighted(ax, ay, bx, by, px, py, rx, ry, qx, qy, d, c1, c2);
        lemma_split_move(ax, ay, bx, by, px, py, rx, ry, qx, qy, d, c1, c2);
    } else {
        assert(rx == px && ry == py);
    }
}

/// The bound on doubled coordinates.
pub open spec fn small(v: int) -> bool {
    -0x4_0000_0000 <= v <= 0x4_0000_0000
}

fn cross_exec(ox: i64, oy: i64, ax: i64, ay: i64, bx: i64, by: i64) -> (r: i128)
    requires
        small(ox as int), small(oy as int), small(ax as int),
        small(ay as int), small(bx as int), small(by as int),
    ensures
        r == cross(ox as int, oy as int, ax as int, ay as int, bx as int, by as int),
{
    let dax = (ax as i128) - (ox as i128);
    let day = (ay as i128) - (oy as i128);
    let dbx = (bx as i128) - (ox as i128);
    let dby = (by as i128) - (oy as i128);
    assert(-0x8_0000_0000 * 0x8_0000_0000 <= dax * dby <= 0x8_0000_0000 * 0x8_0000_0000)
        by (nonlinear_arith)
        requires -0x8_0000_0000 <= dax <= 0x8_0000_0000, -0x8_0000_0000 <= dby <= 0x8_0000_0000;
    assert(-0x8_0000_0000 * 0x8_0000_0000 <= day * dbx <= 0x8_0000_0000 * 0x8_0000_0000)
        by (nonlinear_arith)
        requires -0x8_0000_0000 <= day <= 0x8_0000_0000, -0x8_0000_0000 <= dbx <= 0x8_0000_0000;
    dax * dby - day * dbx
}

/// Whether a plate moving from the centre of `from` to that of `to` crosses `s`.
pub fn crosses_segment(s: &Segment, from: &Rect, to: &Rect) -> (r: bool)
    ensures
        r == crosses(*s, *from, *to),
{
    let px = 2 * (from.x as i64) + from.width as i64;
    let py = 2 * (from.y as i64) + from.height as i64;
    let qx = 2 * (to.x as i64) + to.width as i64;
    let qy = 2 * (to.y as i64) + to.height as i64;
    let ax = 2 * (s.a.x as i64);
    let ay = 2 * (s.a.y as i64);
    let bx = 2 * (s.b.x as i64);
    let by = 2 * (s.b.y as i64);
    let sp = cross_exec(ax, ay, bx, by, px, py);
    let sq = cross_exec(ax, ay, bx, by, qx, qy);
    let e1 = cross_exec(px, py, qx, qy, ax, ay);
    let e2 = cross_exec(px, py, qx, qy, bx, by);
    (sp > 0) != (sq > 0) && !(e1 > 0 && e2 > 0) && !(e1 < 0 && e2 < 0)
}

} // verus!
