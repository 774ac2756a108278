//! Segments, axis-aligned boxes and the slab test that finds where a segment
//! first meets a box.

use vstd::prelude::*;
use crate::vector::{div_toward_zero, narrow, saturate, Vector2};

verus! {

/// The segment from `origin` to `origin + vector`.
#[derive(Clone, Copy, Debug, PartialEq, Eq, Structural)]
pub struct Line {
    pub origin: Vector2,
    pub vector: Vector2,
}

impl Line {
    pub fn new(origin: Vector2, vector: Vector2) -> (line: Line)
        ensures
            line == (Line { origin, vector }),
    {
        Line { origin, vector }
    }
}

/// The rational number `num / den`. Every `Ratio` this crate produces has a
/// positive `den`, and is not reduced to lowest terms.
#[derive(Clone, Copy, Debug, PartialEq, Eq, Structural)]
pub struct Ratio {
    pub num: i64,
    pub den: i64,
}

impl Ratio {
    /// `self < other`, for positive denominators.
    pub open spec fn lt(self, other: Ratio) -> bool {
        self.num * other.den < other.num * self.den
    }

    /// `0 <= self <= 1`, for a positive denominator.
    pub open spec fn in_unit_interval(self) -> bool {
        0 <= self.num <= self.den
    }
}

/// The parameters `t` for which one coordinate of `origin + t * vector` lies
/// between the two faces of a box that bound that coordinate.
#[derive(Clone, Copy, Debug, PartialEq, Eq, Structural)]
pub enum Slab {
    /// No parameter at all: the segment does not move along this axis and sits
    /// outside the faces, or exactly on one of them.
    Empty,
    /// Every parameter: the segment does not move along this axis and sits
    /// strictly between the faces.
    Whole,
    /// The parameters from `entry / den` to `exit / den`, with `den > 0`.
    Span { entry: i64, exit: i64, den: i64 },
}

/// The slab of one axis: `lo` and `hi` are the box faces, `o` and `v` the
/// segment's origin and direction on that axis.
pub open spec fn slab(lo: i32, hi: i32, o: i32, v: i32) -> Slab {
    if v == 0 {
        if (lo < o && o < hi) || (hi < o && o < lo) {
            Slab::Whole
        } else {
            Slab::Empty
        }
    } else {
        let a = if v > 0 { lo - o } else { o - lo };
        let b = if v > 0 { hi - o } else { o - hi };
        Slab::Span {
            entry: (if a <= b { a } else { b }) as i64,
            exit: (if a <= b { b } else { a }) as i64,
            den: (if v > 0 { v as int } else { -v }) as i64,
        }
    }
}

/// The parameter at which the segment enters the region where both slabs hold,
/// if that happens within the segment.
pub open spec fn entry_time(sx: Slab, sy: Slab) -> Option<Ratio> {
    match (sx, sy) {
        (Slab::Span { entry: ex, exit: xx, den: dx }, Slab::Span { entry: ey, exit: xy, den: dy }) => {
            let tx = Ratio { num: ex, den: dx };
            let ty = Ratio { num: ey, den: dy };
            if (Ratio { num: xy, den: dy }).lt(tx) || (Ratio { num: xx, den: dx }).lt(ty) {
                None
            } else {
                let later = if tx.lt(ty) { ty } else { tx };
                if later.in_unit_interval() { Some(later) } else { None }
            }
        },
        (Slab::Span { entry: ex, exit: _, den: dx }, Slab::Whole) => {
            let tx = Ratio { num: ex, den: dx };
            if tx.in_unit_interval() { Some(tx) } else { None }
        },
        (Slab::Whole, Slab::Span { entry: ey, exit: _, den: dy }) => {
            let ty = Ratio { num: ey, den: dy };
            if ty.in_unit_interval() { Some(ty) } else { None }
        },
        _ => None,
    }
}

/// Where a segment first meets a box.
#[derive(Clone, Copy, Debug, PartialEq, Eq, Structural)]
pub struct LineHit {
    pub line: Line,
    pub aabb: AxisAlignedBoundingBox,
    /// The point `line.origin + t * line.vector`, each coordinate rounded
    /// toward the origin's.
    pub pos: Vector2,
    /// The fraction of the segment travelled before the hit, in `[0, 1]`.
    pub t: Ratio,
}

impl LineHit {
    pub fn new(line: Line, aabb: AxisAlignedBoundingBox, pos: Vector2, t: Ratio) -> (hit: LineHit)
        ensures
            hit == (LineHit { line, aabb, pos, t }),
    {
        LineHit { line, aabb, pos, t }
    }
}

/// A rectangle with sides parallel to the axes, given by two opposite corners.
#[derive(Clone, Copy, Debug, PartialEq, Eq, Structural)]
pub struct AxisAlignedBoundingBox {
    pub min: Vector2,
    pub max: Vector2,
}

impl Line {
    /// The point `origin + t * vector`, each coordinate rounded toward the
    /// origin's and kept within the coordinate range.
    pub open spec fn point_at(self, t: Ratio) -> Vector2 {
        Vector2 {
            x: saturate(self.origin.x + div_toward_zero(self.vector.x * t.num, t.den as int)) as i32,
            y: saturate(self.origin.y + div_toward_zero(self.vector.y * t.num, t.den as int)) as i32,
        }
    }
}

impl AxisAlignedBoundingBox {
    /// `min` is the lower left corner and `max` the upper right one.
    pub open spec fn wf(self) -> bool {
        self.min.x <= self.max.x && self.min.y <= self.max.y
    }

    /// The box of the given `size` around `center`.
    pub open spec fn centered(center: Vector2, size: Vector2) -> AxisAlignedBoundingBox {
        AxisAlignedBoundingBox {
            min: Vector2 {
                x: saturate(center.x - div_toward_zero(size.x as int, 2)) as i32,
                y: saturate(center.y - div_toward_zero(size.y as int, 2)) as i32,
            },
            max: Vector2 {
                x: saturate(center.x + div_toward_zero(size.x as int, 2)) as i32,
                y: saturate(center.y + div_toward_zero(size.y as int, 2)) as i32,
            },
        }
    }

    /// Builds the box that extends half of `size` to each side of `center`.
    /// Half of an odd size is rounded toward zero, and a corner that would
    /// leave the coordinate range stays on its border.
    pub fn new(center: Vector2, size: Vector2) -> (aabb: AxisAlignedBoundingBox)
        ensures
            aabb == Self::centered(center, size),
            size.x >= 0 && size.y >= 0 ==> aabb.wf(),
    {
        let hx: i128 = (size.x / 2) as i128;
        let hy: i128 = (size.y / 2) as i128;
        let cx: i128 = center.x as i128;
        let cy: i128 = center.y as i128;
        AxisAlignedBoundingBox {
            min: Vector2 { x: narrow(cx - hx), y: narrow(cy - hy) },
            max: Vector2 { x: narrow(cx + hx), y: narrow(cy + hy) },
        }
    }

    /// The segment stands still along an axis and its origin lies exactly on
    /// one of the two faces that bound that axis.
    pub open spec fn grazes(self, line: Line) -> bool {
        ||| line.vector.x == 0 && (self.min.x == line.origin.x || self.max.x == line.origin.x)
        ||| line.vector.y == 0 && (self.min.y == line.origin.y || self.max.y == line.origin.y)
    }

    /// The parameter of the first point of `line` that lies in the box, when
    /// the segment reaches the box from outside or starts on its border.
    pub open spec fn hit_time(self, line: Line) -> Option<Ratio> {
        entry_time(
            slab(self.min.x, self.max.x, line.origin.x, line.vector.x),
            slab(self.min.y, self.max.y, line.origin.y, line.vector.y),
        )
    }

    /// The result of `intersection`.
    pub open spec fn hit(self, line: Line) -> Option<LineHit> {
        match self.hit_time(line) {
            Some(t) => Some(LineHit { line, aabb: self, pos: line.point_at(t), t }),
            None => None,
        }
    }

    /// Finds where `line` first meets this box.
    ///
    /// A segment that starts strictly inside the box, one that only slides
    /// along a face it started on, and one of length zero give `None`.
    pub fn intersection(self, line: Line) -> (hit: Option<LineHit>)
        ensures
            hit == self.hit(line),
    {
        let sx = slab_of(self.min.x, self.max.x, line.origin.x, line.vector.x);
        let sy = slab_of(self.min.y, self.max.y, line.origin.y, line.vector.y);
        let t = match (sx, sy) {
            (
                Slab::Span { entry: ex, exit: xx, den: dx },
                Slab::Span { entry: ey, exit: xy, den: dy },
            ) => {
                let tx = Ratio { num: ex, den: dx };
                let ty = Ratio { num: ey, den: dy };
                if ratio_lt(Ratio { num: xy, den: dy }, tx) || ratio_lt(Ratio { num: xx, den: dx }, ty) {
                    return None;
                }
                // The later entry wins; a negative one falls back to the x axis,
                // which is then negative too.
                let later = if ratio_lt(tx, ty) { ty } else { tx };
                if later.num < 0 {
                    assert(ex < 0) by (nonlinear_arith)
                        requires
                            ex < 0 || (ex * dy < ey * dx && ey < 0),
                            dx > 0,
                            dy > 0,
                    ;
                    tx
                } else {
                    later
                }
            },
            (Slab::Span { entry: ex, exit: _, den: dx }, Slab::Whole) => Ratio { num: ex, den: dx },
            (Slab::Whole, Slab::Span { entry: ey, exit: _, den: dy }) => Ratio { num: ey, den: dy },
            _ => { return None; },
        };
        if t.num > t.den {
            return None;
        }
        if t.num < 0 {
            return None;
        }
        let pos = point_on(line, t);
        Some(LineHit::new(line, self, pos, t))
    }
}

/// Computes the slab of one axis.
pub fn slab_of(lo: i32, hi: i32, o: i32, v: i32) -> (s: Slab)
    ensures
        s == slab(lo, hi, o, v),
{
    if v == 0 {
        if (lo < o && o < hi) || (hi < o && o < lo) {
            Slab::Whole
        } else {
            Slab::Empty
        }
    } else {
        let a: i64 = if v > 0 { lo as i64 - o as i64 } else { o as i64 - lo as i64 };
        let b: i64 = if v > 0 { hi as i64 - o as i64 } else { o as i64 - hi as i64 };
        let den: i64 = if v > 0 { v as i64 } else { -(v as i64) };
        if a <= b {
            Slab::Span { entry: a, exit: b, den }
        } else {
            Slab::Span { entry: b, exit: a, den }
        }
    }
}

/// Compares two ratios by cross-multiplication.
pub fn ratio_lt(a: Ratio, b: Ratio) -> (r: bool)
    ensures
        r == a.lt(b),
{
    let an: i128 = a.num as i128;
    let ad: i128 = a.den as i128;
    let bn: i128 = b.num as i128;
    let bd: i128 = b.den as i128;
    assert(-0x8000_0000_0000_0000 * 0x8000_0000_0000_0000 <= an * bd <= 0x8000_0000_0000_0000
        * 0x8000_0000_0000_0000) by (nonlinear_arith)
        requires
            -0x8000_0000_0000_0000 <= an <= 0x8000_0000_0000_0000,
            -0x8000_0000_0000_0000 <= bd <= 0x8000_0000_0000_0000,
    ;
    assert(-0x8000_0000_0000_0000 * 0x8000_0000_0000_0000 <= bn * ad <= 0x8000_0000_0000_0000
        * 0x8000_0000_0000_0000) by (nonlinear_arith)
        requires
            -0x8000_0000_0000_0000 <= bn <= 0x8000_0000_0000_0000,
            -0x8000_0000_0000_0000 <= ad <= 0x8000_0000_0000_0000,
    ;
    an * bd < bn * ad
}

/// Computes `Line::point_at`.
pub fn point_on(line: Line, t: Ratio) -> (p: Vector2)
    requires
        t.den > 0,
    ensures
        p == line.point_at(t),
{
    let n: i128 = t.num as i128;
    let d: i128 = t.den as i128;
    let vx: i128 = line.vector.x as i128;
    let vy: i128 = line.vector.y as i128;
    assert(-0x8000_0000 * 0x8000_0000_0000_0000 <= vx * n <= 0x8000_0000 * 0x8000_0000_0000_0000)
        by (nonlinear_arith)
        requires
            -0x8000_0000_0000_0000 <= n <= 0x8000_0000_0000_0000,
            -0x8000_0000 <= vx <= 0x8000_0000,
    ;
    assert(-0x8000_0000 * 0x8000_0000_0000_0000 <= vy * n <= 0x8000_0000 * 0x8000_0000_0000_0000)
        by (nonlinear_arith)
        requires
            -0x8000_0000_0000_0000 <= n <= 0x8000_0000_0000_0000,
            -0x8000_0000 <= vy <= 0x8000_0000,
    ;
    let qx: i128 = (vx * n) / d;
    let qy: i128 = (vy * n) / d;
    proof {
        lemma_div_toward_zero_bound(vx * n, d as int);
        lemma_div_toward_zero_bound(vy * n, d as int);
    }
    Vector2 { x: narrow(line.origin.x as i128 + qx), y: narrow(line.origin.y as i128 + qy) }
}

/// Dividing by a positive number toward zero does not increase the magnitude.
pub proof fn lemma_div_toward_zero_bound(a: int, b: int)
    requires
        b > 0,
    ensures
        a >= 0 ==> 0 <= div_toward_zero(a, b) <= a,
        a <= 0 ==> a <= div_toward_zero(a, b) <= 0,
{
    assert(a >= 0 ==> 0 <= a / b <= a) by (nonlinear_arith)
        requires
            b > 0,
    ;
    assert(a <= 0 ==> 0 <= (-a) / b <= -a) by (nonlinear_arith)
        requires
            b > 0,
    ;
}

impl AxisAlignedBoundingBox {
    /// The point of `line` at parameter `n / d`, for a positive `d`, lies in
    /// the box or on its border. Both sides are multiplied by `d`, so that the
    /// statement needs no division.
    pub open spec fn reaches(self, line: Line, n: int, d: int) -> bool {
        &&& self.min.x * d <= line.origin.x * d + line.vector.x * n <= self.max.x * d
        &&& self.min.y * d <= line.origin.y * d + line.vector.y * n <= self.max.y * d
    }

    /// The point of `line` at parameter `n / d`, for a positive `d`, lies
    /// strictly inside the box.
    pub open spec fn reaches_interior(self, line: Line, n: int, d: int) -> bool {
        &&& self.min.x * d < line.origin.x * d + line.vector.x * n < self.max.x * d
        &&& self.min.y * d < line.origin.y * d + line.vector.y * n < self.max.y * d
    }

    /// The origin of `line` lies strictly inside the box.
    pub open spec fn starts_inside(self, line: Line) -> bool {
        &&& self.min.x < line.origin.x < self.max.x
        &&& self.min.y < line.origin.y < self.max.y
    }

    /// A segment that stands still along an axis, with its origin exactly on a
    /// face that bounds that axis, never hits the box.
    pub proof fn lemma_grazing_is_no_hit(self, line: Line)
        requires
            self.grazes(line),
        ensures
            self.hit(line) is None,
    {
    }

    /// A segment of length zero never hits the box.
    pub proof fn lemma_still_is_no_hit(self, line: Line)
        requires
            line.vector == Vector2::zero(),
        ensures
            self.hit(line) is None,
    {
    }

    /// A hit lies on the segment and on the box: its parameter is in `[0, 1]`
    /// and the point at that parameter is in the box or on its border.
    pub proof fn lemma_hit_is_on_segment_and_box(self, line: Line)
        requires
            self.wf(),
            self.hit(line) is Some,
        ensures
            self.hit(line)->0.t.den > 0,
            self.hit(line)->0.t.in_unit_interval(),
            self.reaches(line, self.hit(line)->0.t.num as int, self.hit(line)->0.t.den as int),
    {
        let t = self.hit_time(line)->0;
        let sx = slab(self.min.x, self.max.x, line.origin.x, line.vector.x);
        let sy = slab(self.min.y, self.max.y, line.origin.y, line.vector.y);
        lemma_slab_membership(self.min.x, self.max.x, line.origin.x, line.vector.x, t.num as int, t.den as int);
        lemma_slab_membership(self.min.y, self.max.y, line.origin.y, line.vector.y, t.num as int, t.den as int);
        match (sx, sy) {
            (Slab::Span { entry: ex, exit: xx, den: dx }, Slab::Span { entry: ey, exit: xy, den: dy }) => {
                let tx = Ratio { num: ex, den: dx };
                let ty = Ratio { num: ey, den: dy };
                if tx.lt(ty) {
                    assert(t == ty);
                    lemma_entry_le_exit(ey as int, xy as int, dy as int);
                } else {
                    assert(t == tx);
                    lemma_entry_le_exit(ex as int, xx as int, dx as int);
                }
            },
            (Slab::Span { entry: ex, exit: xx, den: dx }, Slab::Whole) => {
                lemma_entry_le_exit(ex as int, xx as int, dx as int);
            },
            (Slab::Whole, Slab::Span { entry: ey, exit: xy, den: dy }) => {
                lemma_entry_le_exit(ey as int, xy as int, dy as int);
            },
            _ => {},
        }
    }

    /// The recorded position of a hit lies in the box or on its border, and so
    /// within the coordinate range.
    pub proof fn lemma_hit_position_is_in_box(self, line: Line)
        requires
            self.wf(),
            self.hit(line) is Some,
        ensures
            self.min.x <= self.hit(line)->0.pos.x <= self.max.x,
            self.min.y <= self.hit(line)->0.pos.y <= self.max.y,
            self.hit(line)->0.pos.x == line.origin.x + div_toward_zero(
                line.vector.x * self.hit(line)->0.t.num,
                self.hit(line)->0.t.den as int,
            ),
            self.hit(line)->0.pos.y == line.origin.y + div_toward_zero(
                line.vector.y * self.hit(line)->0.t.num,
                self.hit(line)->0.t.den as int,
            ),
    {
        let t = self.hit(line)->0.t;
        self.lemma_hit_is_on_segment_and_box(line);
        lemma_rounded_stays_between(
            self.min.x as int,
            self.max.x as int,
            line.origin.x as int,
            line.vector.x * t.num,
            t.den as int,
        );
        lemma_rounded_stays_between(
            self.min.y as int,
            self.max.y as int,
            line.origin.y as int,
            line.vector.y * t.num,
            t.den as int,
        );
    }

    /// A hit is the first contact: no point of the line at a smaller
    /// parameter lies in the box or on its border.
    pub proof fn lemma_hit_is_first_contact(self, line: Line, n: int, d: int)
        requires
            self.wf(),
            self.hit(line) is Some,
            d > 0,
            n * self.hit(line)->0.t.den < self.hit(line)->0.t.num * d,
        ensures
            !self.reaches(line, n, d),
    {
        let t = self.hit_time(line)->0;
        lemma_slab_membership(self.min.x, self.max.x, line.origin.x, line.vector.x, n, d);
        lemma_slab_membership(self.min.y, self.max.y, line.origin.y, line.vector.y, n, d);
    }

    /// A segment that starts outside the box or on its border, and has a point
    /// strictly inside the box, hits the box.
    pub proof fn lemma_crossing_is_hit(self, line: Line, n: int, d: int)
        requires
            self.wf(),
            !self.starts_inside(line),
            d > 0,
            0 <= n <= d,
            self.reaches_interior(line, n, d),
        ensures
            self.hit(line) is Some,
    {
        let sx = slab(self.min.x, self.max.x, line.origin.x, line.vector.x);
        let sy = slab(self.min.y, self.max.y, line.origin.y, line.vector.y);
        lemma_slab_membership(self.min.x, self.max.x, line.origin.x, line.vector.x, n, d);
        lemma_slab_membership(self.min.y, self.max.y, line.origin.y, line.vector.y, n, d);
        lemma_slab_membership(self.min.x, self.max.x, line.origin.x, line.vector.x, 0, 1);
        lemma_slab_membership(self.min.y, self.max.y, line.origin.y, line.vector.y, 0, 1);
        match (sx, sy) {
            (Slab::Span { entry: ex, exit: xx, den: dx }, Slab::Span { entry: ey, exit: xy, den: dy }) => {
                let tx = Ratio { num: ex, den: dx };
                let ty = Ratio { num: ey, den: dy };
                lemma_ratio_chain(ex as int, dx as int, n, d, xy as int, dy as int);
                lemma_ratio_chain(ey as int, dy as int, n, d, xx as int, dx as int);
                assert(!(Ratio { num: xy, den: dy }).lt(tx));
                assert(!(Ratio { num: xx, den: dx }).lt(ty));
                lemma_ratio_below_one(ex as int, dx as int, n, d);
                lemma_ratio_below_one(ey as int, dy as int, n, d);
                lemma_ratio_positive(n, d, xx as int, dx as int);
                lemma_ratio_positive(n, d, xy as int, dy as int);
                assert(ex >= 0 || ey >= 0);
                if tx.lt(ty) {
                    lemma_ratio_not_negative(ey as int, dy as int, ex as int, dx as int);
                } else {
                    lemma_ratio_not_negative(ex as int, dx as int, ey as int, dy as int);
                }
            },
            (Slab::Span { entry: ex, exit: xx, den: dx }, Slab::Whole) => {
                lemma_ratio_below_one(ex as int, dx as int, n, d);
                lemma_ratio_positive(n, d, xx as int, dx as int);
            },
            (Slab::Whole, Slab::Span { entry: ey, exit: xy, den: dy }) => {
                lemma_ratio_below_one(ey as int, dy as int, n, d);
                lemma_ratio_positive(n, d, xy as int, dy as int);
            },
            _ => {},
        }
    }

    /// Some point of the segment lies strictly inside the box.
    pub open spec fn crosses_interior(self, line: Line) -> bool {
        exists|n: int, d: int| d > 0 && 0 <= n <= d && #[trigger] self.reaches_interior(line, n, d)
    }

    /// The segment hits the box and goes on into it: the hit comes before the
    /// end of the segment and before the line leaves the box again.
    pub open spec fn hits_and_goes_on(self, line: Line) -> bool {
        match self.hit_time(line) {
            Some(t) => {
                &&& t.num < t.den
                &&& leaves_after(slab(self.min.x, self.max.x, line.origin.x, line.vector.x), t)
                &&& leaves_after(slab(self.min.y, self.max.y, line.origin.y, line.vector.y), t)
            },
            None => false,
        }
    }

    /// The segment hits the box but has no point strictly inside it: it ends
    /// on the border, or passes through a corner or along an edge of a box
    /// without area.
    pub open spec fn only_touches(self, line: Line) -> bool {
        self.hit(line) is Some && !self.hits_and_goes_on(line)
    }

    /// A segment that hits the box and goes on into it has a point strictly
    /// inside the box.
    pub proof fn lemma_going_on_crosses_interior(self, line: Line)
        requires
            self.wf(),
            self.hits_and_goes_on(line),
        ensures
            self.crosses_interior(line),
    {
        let t = self.hit_time(line)->0;
        let sx = slab(self.min.x, self.max.x, line.origin.x, line.vector.x);
        let sy = slab(self.min.y, self.max.y, line.origin.y, line.vector.y);
        let k: int = 0x1_0000_0000;
        let n = t.num * k + 1;
        let d = t.den * k;
        self.lemma_hit_is_on_segment_and_box(line);
        assert(d > 0 && 0 <= n <= d) by (nonlinear_arith)
            requires
                n == t.num * k + 1,
                d == t.den * k,
                0 <= t.num < t.den,
                k >= 1,
        ;
        lemma_slab_membership(self.min.x, self.max.x, line.origin.x, line.vector.x, n, d);
        lemma_slab_membership(self.min.y, self.max.y, line.origin.y, line.vector.y, n, d);
        match sx {
            Slab::Span { entry, exit, den } => {
                assert(entry * t.den <= t.num * den) by {
                    self.lemma_hit_is_not_before_entry(line);
                }
                lemma_just_after(t.num as int, t.den as int, entry as int, exit as int, den as int, k);
            },
            _ => {},
        }
        match sy {
            Slab::Span { entry, exit, den } => {
                assert(entry * t.den <= t.num * den) by {
                    self.lemma_hit_is_not_before_entry(line);
                }
                lemma_just_after(t.num as int, t.den as int, entry as int, exit as int, den as int, k);
            },
            _ => {},
        }
        assert(self.reaches_interior(line, n, d));
    }

    /// The hit does not come before the segment has entered both slabs.
    pub proof fn lemma_hit_is_not_before_entry(self, line: Line)
        requires
            self.hit(line) is Some,
        ensures
            slab(self.min.x, self.max.x, line.origin.x, line.vector.x) matches Slab::Span {
                entry,
                exit,
                den,
            } ==> entry * self.hit_time(line)->0.den <= self.hit_time(line)->0.num * den,
            slab(self.min.y, self.max.y, line.origin.y, line.vector.y) matches Slab::Span {
                entry,
                exit,
                den,
            } ==> entry * self.hit_time(line)->0.den <= self.hit_time(line)->0.num * den,
    {
        let sx = slab(self.min.x, self.max.x, line.origin.x, line.vector.x);
        let sy = slab(self.min.y, self.max.y, line.origin.y, line.vector.y);
        match (sx, sy) {
            (Slab::Span { entry: ex, exit: xx, den: dx }, Slab::Span { entry: ey, exit: xy, den: dy }) => {
                assert(ex * dy == dy * ex && ey * dx == dx * ey) by (nonlinear_arith);
            },
            _ => {},
        }
    }

    /// A segment that starts outside the box or on its border, and has a point
    /// strictly inside the box, hits the box and goes on into it.
    pub proof fn lemma_crossing_goes_on(self, line: Line)
        requires
            self.wf(),
            !self.starts_inside(line),
            self.crosses_interior(line),
        ensures
            self.hits_and_goes_on(line),
    {
        let (n, d) = choose|n: int, d: int|
            d > 0 && 0 <= n <= d && #[trigger] self.reaches_interior(line, n, d);
        self.lemma_crossing_is_hit(line, n, d);
        self.lemma_hit_is_not_before_entry(line);
        let t = self.hit_time(line)->0;
        let sx = slab(self.min.x, self.max.x, line.origin.x, line.vector.x);
        let sy = slab(self.min.y, self.max.y, line.origin.y, line.vector.y);
        lemma_slab_membership(self.min.x, self.max.x, line.origin.x, line.vector.x, n, d);
        lemma_slab_membership(self.min.y, self.max.y, line.origin.y, line.vector.y, n, d);
        // The hit is the entry into one of the slabs, and the point inside
        // comes after that entry.
        assert(t.num * d < n * t.den) by {
            match (sx, sy) {
                (
                    Slab::Span { entry: ex, exit: xx, den: dx },
                    Slab::Span { entry: ey, exit: xy, den: dy },
                ) => {
                    assert(t == Ratio { num: ex, den: dx } || t == Ratio { num: ey, den: dy });
                },
                _ => {},
            }
        }
        lemma_ratio_below_one(t.num as int, t.den as int, n, d);
        match sx {
            Slab::Span { entry, exit, den } => {
                lemma_ratio_chain(t.num as int, t.den as int, n, d, exit as int, den as int);
            },
            _ => {},
        }
        match sy {
            Slab::Span { entry, exit, den } => {
                lemma_ratio_chain(t.num as int, t.den as int, n, d, exit as int, den as int);
            },
            _ => {},
        }
    }

    /// For a segment that starts outside the box or on its border, and does
    /// not merely touch the box, a hit is reported exactly when the segment
    /// has a point strictly inside the box.
    pub proof fn lemma_hit_iff_crossing(self, line: Line)
        requires
            self.wf(),
            !self.starts_inside(line),
            !self.only_touches(line),
        ensures
            self.hit(line) is Some <==> self.crosses_interior(line),
    {
        if self.crosses_interior(line) {
            self.lemma_crossing_goes_on(line);
        }
        if self.hit(line) is Some {
            self.lemma_going_on_crosses_interior(line);
        }
    }
}

/// The parameter `t` comes before the line leaves the slab `s`.
pub open spec fn leaves_after(s: Slab, t: Ratio) -> bool {
    match s {
        Slab::Span { entry, exit, den } => t.num * den < exit * t.den,
        Slab::Whole => true,
        Slab::Empty => false,
    }
}

/// Between `a / b` and a later `exit / den` lies `(a * k + 1) / (b * k)`, for
/// any `k` above `den`; and what is not after `a / b` is before it.
pub proof fn lemma_just_after(a: int, b: int, entry: int, exit: int, den: int, k: int)
    requires
        b > 0,
        0 < den < k,
        entry * b <= a * den,
        a * den < exit * b,
    ensures
        entry * (b * k) < (a * k + 1) * den,
        (a * k + 1) * den < exit * (b * k),
{
    assert(entry * (b * k) < (a * k + 1) * den) by (nonlinear_arith)
        requires
            b > 0,
            0 < den < k,
            entry * b <= a * den,
    {
        assert((entry * b) * k <= (a * den) * k);
        assert(entry * (b * k) == (entry * b) * k);
        assert((a * k + 1) * den == (a * den) * k + den);
    }
    assert((a * k + 1) * den < exit * (b * k)) by (nonlinear_arith)
        requires
            b > 0,
            0 < den < k,
            a * den < exit * b,
    {
        assert(exit * b - a * den >= 1);
        assert((exit * b - a * den) * k >= k);
        assert(exit * (b * k) == (exit * b) * k);
        assert((a * k + 1) * den == (a * den) * k + den);
        assert((exit * b - a * den) * k == (exit * b) * k - (a * den) * k);
    }
}

/// On an axis along which the segment moves, the coordinate at parameter
/// `n / d` lies between the faces exactly when the parameter lies between the
/// slab's entry and exit; on an axis along which it stands still, exactly when
/// the origin does.
pub proof fn lemma_slab_membership(lo: i32, hi: i32, o: i32, v: i32, n: int, d: int)
    requires
        lo <= hi,
        d > 0,
    ensures
        match slab(lo, hi, o, v) {
            Slab::Span { entry, exit, den } => {
                &&& den > 0
                &&& (lo * d <= o * d + v * n <= hi * d <==> entry * d <= n * den <= exit * d)
                &&& (lo * d < o * d + v * n < hi * d <==> entry * d < n * den < exit * d)
            },
            Slab::Whole => lo * d < o * d + v * n < hi * d,
            Slab::Empty => !(lo * d < o * d + v * n < hi * d),
        },
{
    let lo = lo as int;
    let hi = hi as int;
    let o = o as int;
    let v = v as int;
    if v == 0 {
        assert(v * n == 0);
        assert(lo < o <==> lo * d < o * d) by (nonlinear_arith)
            requires
                d > 0,
        ;
        assert(o < hi <==> o * d < hi * d) by (nonlinear_arith)
            requires
                d > 0,
        ;
    } else if v > 0 {
        assert((lo - o) * d == lo * d - o * d) by (nonlinear_arith);
        assert((hi - o) * d == hi * d - o * d) by (nonlinear_arith);
        assert(n * v == v * n) by (nonlinear_arith);
    } else {
        assert((o - lo) * d == o * d - lo * d) by (nonlinear_arith);
        assert((o - hi) * d == o * d - hi * d) by (nonlinear_arith);
        assert(n * (-v) == -(v * n)) by (nonlinear_arith);
    }
}

/// If `o + p / d` lies between two integers, it still does after `p / d` is
/// rounded toward zero.
pub proof fn lemma_rounded_stays_between(lo: int, hi: int, o: int, p: int, d: int)
    requires
        d > 0,
        lo * d <= o * d + p <= hi * d,
    ensures
        lo <= o + div_toward_zero(p, d) <= hi,
{
    let q = div_toward_zero(p, d);
    if p >= 0 {
        assert(q * d <= p < (q + 1) * d) by (nonlinear_arith)
            requires
                d > 0,
                p >= 0,
                q == p / d,
        ;
    } else {
        assert((q - 1) * d < p <= q * d) by (nonlinear_arith)
            requires
                d > 0,
                p < 0,
                q == -((-p) / d),
        ;
    }
    assert(lo <= o + q <= hi) by (nonlinear_arith)
        requires
            d > 0,
            lo * d <= o * d + p <= hi * d,
            (q * d <= p < (q + 1) * d) || ((q - 1) * d < p <= q * d),
    ;
}

/// With a positive denominator, `entry <= exit` gives
/// `entry / den <= exit / den`, cross-multiplied.
pub proof fn lemma_entry_le_exit(entry: int, exit: int, den: int)
    requires
        entry <= exit,
        den > 0,
    ensures
        entry * den <= exit * den,
{
    assert(entry * den <= exit * den) by (nonlinear_arith)
        requires
            entry <= exit,
            den > 0,
    ;
}

/// `a / b < n / d < e / f` gives `a / b < e / f`, all cross-multiplied and
/// with positive denominators.
pub proof fn lemma_ratio_chain(a: int, b: int, n: int, d: int, e: int, f: int)
    requires
        b > 0,
        d > 0,
        f > 0,
        a * d < n * b,
        n * f < e * d,
    ensures
        a * f < e * b,
{
    assert(a * f < e * b) by (nonlinear_arith)
        requires
            b > 0,
            d > 0,
            f > 0,
            a * d < n * b,
            n * f < e * d,
    {
        assert((a * d) * f < (n * b) * f);
        assert((n * f) * b < (e * d) * b);
        assert((a * d) * f == (a * f) * d);
        assert((n * b) * f == (n * f) * b);
        assert((e * d) * b == (e * b) * d);
        assert((a * f) * d < (e * b) * d);
    }
}

/// `a / b < n / d <= 1` gives `a < b`.
pub proof fn lemma_ratio_below_one(a: int, b: int, n: int, d: int)
    requires
        b > 0,
        d > 0,
        n <= d,
    ensures
        a * d < n * b ==> a < b,
{
    assert(a * d < n * b ==> a < b) by (nonlinear_arith)
        requires
            b > 0,
            d > 0,
            n <= d,
    ;
}

/// `e / f <= a / b` gives `0 <= a` when `0 <= e` or `0 <= a`.
pub proof fn lemma_ratio_not_negative(a: int, b: int, e: int, f: int)
    requires
        b > 0,
        f > 0,
        e * b <= a * f,
        e >= 0 || a >= 0,
    ensures
        a >= 0,
{
    assert(a >= 0) by (nonlinear_arith)
        requires
            b > 0,
            f > 0,
            e * b <= a * f,
            e >= 0 || a >= 0,
    ;
}

/// `0 <= n / d < e / f` gives `0 < e`.
pub proof fn lemma_ratio_positive(n: int, d: int, e: int, f: int)
    requires
        d > 0,
        f > 0,
        0 <= n,
    ensures
        n * f < e * d ==> 0 < e,
{
    assert(n * f < e * d ==> 0 < e) by (nonlinear_arith)
        requires
            d > 0,
            f > 0,
            0 <= n,
    ;
}

} // verus!
