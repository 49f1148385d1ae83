//! Points, segments and rectangles of the plane, and the intersection of a
//! ray with a segment in exact integer arithmetic.

use vstd::prelude::*;
use crate::fixed::{abs, div_floor, in_limit, lemma_div_bound, lemma_prod_bound, LIMIT, ONE};

verus! {

/// A point or a vector of the plane, in fixed-point coordinates.
#[derive(Clone, Copy, Debug, PartialEq, Eq, Structural)]
pub struct Vec2 {
    pub x: i64,
    pub y: i64,
}

impl Vec2 {
    /// Both coordinates are within [`LIMIT`] of zero.
    pub open spec fn bounded(self) -> bool {
        in_limit(self.x as int) && in_limit(self.y as int)
    }

    pub fn new(x: i64, y: i64) -> (result: Self)
        ensures
            result == (Vec2 { x, y }),
    {
        Vec2 { x, y }
    }

    /// Tells whether both coordinates are within [`LIMIT`] of zero.
    pub fn is_bounded(&self) -> (result: bool)
        ensures
            result == self.bounded(),
    {
        -LIMIT <= self.x && self.x <= LIMIT && -LIMIT <= self.y && self.y <= LIMIT
    }
}

/// The z component of the cross product of `(ux, uy)` and `(vx, vy)`.
pub open spec fn cross(ux: int, uy: int, vx: int, vy: int) -> int {
    ux * vy - uy * vx
}

/// The dot product of `(ux, uy)` and `(vx, vy)`.
pub open spec fn dot(ux: int, uy: int, vx: int, vy: int) -> int {
    ux * vx + uy * vy
}

/// `offset` lies between zero and `span`, and `span` is not zero.
pub open spec fn within_span(offset: int, span: int) -> bool {
    if span > 0 {
        0 <= offset <= span
    } else {
        span < 0 && span <= offset <= 0
    }
}

/// Where the ray from `p` along `dir` meets the segment from `a` to `b`.
///
/// With `den = ab x dir` and `num = ab x ap`, the ray parameter is
/// `s = num / -den`. There is no hit when the two are parallel (`|den|` at most
/// `ONE`, a millionth of a square unit), when the segment lies behind the ray
/// (`s < 0`), when the hit `p + s * dir` (rounded down) falls outside the
/// segment, or when the hit is not a coordinate within `LIMIT`. Whether the hit
/// is on the segment is judged on `y` for a vertical segment and on `x` otherwise.
pub open spec fn ray_hit(a: Vec2, b: Vec2, dir: Vec2, p: Vec2) -> Option<Vec2> {
    let abx = b.x - a.x;
    let aby = b.y - a.y;
    let den = cross(abx, aby, dir.x as int, dir.y as int);
    let num = cross(abx, aby, p.x - a.x, p.y - a.y);
    let sn = if den > 0 { -num } else { num };
    let sd = abs(den);
    if sd <= ONE {
        None
    } else if sn < 0 {
        None
    } else {
        let ix = p.x + (dir.x * sn) / sd;
        let iy = p.y + (dir.y * sn) / sd;
        let inside = if abs(a.x - b.x) <= 1 {
            within_span(iy - a.y, aby)
        } else {
            within_span(ix - a.x, abx)
        };
        if inside && in_limit(ix) && in_limit(iy) {
            Some(Vec2 { x: ix as i64, y: iy as i64 })
        } else {
            None
        }
    }
}

/// Two vectors point the same way: the cosine of the angle between them is
/// at least `1 - 1/1_000_000`. A vector of length zero points no way.
pub open spec fn same_direction(ux: int, uy: int, vx: int, vy: int) -> bool {
    let d = dot(ux, uy, vx, vy);
    d > 0 && (d * d) * 1_000_000_000_000 >= (999_999 * 999_999) * (dot(ux, uy, ux, uy) * dot(
        vx,
        vy,
        vx,
        vy,
    ))
}

/// Whether `pt` lies on the segment from `a` to `b`, both ends included:
/// `pt` is the start, or `ap` is parallel to `ab` (cross product at most
/// `ONE`), points the same way and is not longer.
pub open spec fn on_segment(a: Vec2, b: Vec2, pt: Vec2) -> bool {
    let abx = b.x - a.x;
    let aby = b.y - a.y;
    let apx = pt.x - a.x;
    let apy = pt.y - a.y;
    (apx == 0 && apy == 0) || (abs(cross(abx, aby, apx, apy)) <= ONE && same_direction(
        abx,
        aby,
        apx,
        apy,
    ) && dot(apx, apy, apx, apy) <= dot(abx, aby, abx, aby))
}

/// Both ends of a segment lie on it.
pub proof fn lemma_ends_are_on_segment(a: Vec2, b: Vec2)
    ensures
        on_segment(a, b, a),
        on_segment(a, b, b),
{
    let abx = b.x - a.x;
    let aby = b.y - a.y;
    if !(abx == 0 && aby == 0) {
        let uu = dot(abx, aby, abx, aby);
        assert(cross(abx, aby, abx, aby) == 0) by (nonlinear_arith);
        assert(uu > 0) by (nonlinear_arith)
            requires
                uu == abx * abx + aby * aby,
                abx != 0 || aby != 0,
        ;
        assert((uu * uu) * 1_000_000_000_000 >= 999_998_000_001 * (uu * uu)) by (nonlinear_arith)
            requires
                uu > 0,
        ;
    }
}

/// The squares of the dot and of the cross product of two vectors add up to
/// the product of their squared lengths, so pointing the same way can be
/// told from the dot and the cross product alone.
pub proof fn lemma_same_direction(ux: int, uy: int, vx: int, vy: int)
    ensures
        ({
            let d = dot(ux, uy, vx, vy);
            let c = cross(ux, uy, vx, vy);
            &&& d * d + c * c == dot(ux, uy, ux, uy) * dot(vx, vy, vx, vy)
            &&& same_direction(ux, uy, vx, vy) == (d > 0 && (d * d) * 1_999_999 >= (999_999
                * 999_999) * (c * c))
        }),
{
    let d = dot(ux, uy, vx, vy);
    let c = cross(ux, uy, vx, vy);
    let uu = dot(ux, uy, ux, uy);
    let vv = dot(vx, vy, vx, vy);
    let xx = ux * vx;
    let yy = uy * vy;
    let xy = ux * vy;
    let yx = uy * vx;
    assert(d * d == xx * xx + 2 * (xx * yy) + yy * yy) by (nonlinear_arith)
        requires
            d == xx + yy,
    ;
    assert(c * c == xy * xy - 2 * (xy * yx) + yx * yx) by (nonlinear_arith)
        requires
            c == xy - yx,
    ;
    assert(xx * yy == xy * yx) by (nonlinear_arith)
        requires
            xx == ux * vx,
            yy == uy * vy,
            xy == ux * vy,
            yx == uy * vx,
    ;
    assert(uu * vv == (ux * ux) * (vx * vx) + (ux * ux) * (vy * vy) + (uy * uy) * (vx * vx) + (uy
        * uy) * (vy * vy)) by (nonlinear_arith)
        requires
            uu == ux * ux + uy * uy,
            vv == vx * vx + vy * vy,
    ;
    assert((ux * ux) * (vx * vx) == xx * xx) by (nonlinear_arith)
        requires
            xx == ux * vx,
    ;
    assert((uy * uy) * (vy * vy) == yy * yy) by (nonlinear_arith)
        requires
            yy == uy * vy,
    ;
    assert((ux * ux) * (vy * vy) == xy * xy) by (nonlinear_arith)
        requires
            xy == ux * vy,
    ;
    assert((uy * uy) * (vx * vx) == yx * yx) by (nonlinear_arith)
        requires
            yx == uy * vx,
    ;
    let dd = d * d;
    let cc = c * c;
    let k: int = (999_999 * 999_999) as int;
    assert(dd + cc == uu * vv);
    assert(k == 999_998_000_001);
    assert(k * (uu * vv) == 999_998_000_001 * dd + 999_998_000_001 * cc) by (nonlinear_arith)
        requires
            uu * vv == dd + cc,
            k == 999_998_000_001,
    ;
    assert(dd * 1_000_000_000_000 - 999_998_000_001 * dd == dd * 1_999_999) by (nonlinear_arith);
    assert(k * cc == 999_998_000_001 * cc);
}

/// The bisection test of a segment: the squared distance of `pt` from the
/// start `a` is at most half the squared length of the segment. A point at
/// exactly that distance counts as closer to the start.
pub open spec fn closer_to_start(a: Vec2, b: Vec2, pt: Vec2) -> bool {
    let ab = dot(b.x - a.x, b.y - a.y, b.x - a.x, b.y - a.y);
    let ap = dot(pt.x - a.x, pt.y - a.y, pt.x - a.x, pt.y - a.y);
    2 * ap <= ab
}

fn cross_exec(ux: i128, uy: i128, vx: i128, vy: i128) -> (result: i128)
    requires
        -2 * LIMIT <= ux <= 2 * LIMIT,
        -2 * LIMIT <= uy <= 2 * LIMIT,
        -2 * LIMIT <= vx <= 2 * LIMIT,
        -2 * LIMIT <= vy <= 2 * LIMIT,
    ensures
        result == cross(ux as int, uy as int, vx as int, vy as int),
        -8 * LIMIT * LIMIT <= result <= 8 * LIMIT * LIMIT,
{
    proof {
        assert(LIMIT == 1_099_511_627_776);
        lemma_prod_bound(ux as int, vy as int, 2_199_023_255_552, 2_199_023_255_552);
        lemma_prod_bound(uy as int, vx as int, 2_199_023_255_552, 2_199_023_255_552);
    }
    ux * vy - uy * vx
}

fn dot_exec(ux: i128, uy: i128, vx: i128, vy: i128) -> (result: i128)
    requires
        -2 * LIMIT <= ux <= 2 * LIMIT,
        -2 * LIMIT <= uy <= 2 * LIMIT,
        -2 * LIMIT <= vx <= 2 * LIMIT,
        -2 * LIMIT <= vy <= 2 * LIMIT,
    ensures
        result == dot(ux as int, uy as int, vx as int, vy as int),
        -8 * LIMIT * LIMIT <= result <= 8 * LIMIT * LIMIT,
{
    proof {
        assert(LIMIT == 1_099_511_627_776);
        lemma_prod_bound(ux as int, vx as int, 2_199_023_255_552, 2_199_023_255_552);
        lemma_prod_bound(uy as int, vy as int, 2_199_023_255_552, 2_199_023_255_552);
    }
    ux * vx + uy * vy
}

fn within_span_exec(offset: i128, span: i128) -> (result: bool)
    ensures
        result == within_span(offset as int, span as int),
{
    if span > 0 {
        0 <= offset && offset <= span
    } else {
        span < 0 && span <= offset && offset <= 0
    }
}

/// The factor `k` of the projection of `v1` on `v2`, as a fixed-point
/// number rounded down: `(v1 . v2) / (v2 . v2)`.
pub open spec fn projection_factor(v1: Vec2, v2: Vec2) -> int {
    (dot(v1.x as int, v1.y as int, v2.x as int, v2.y as int) * ONE) / dot(
        v2.x as int,
        v2.y as int,
        v2.x as int,
        v2.y as int,
    )
}

/// The projection of `v1` on `v2` and its factor, where `v2` is not zero and
/// the factor is within the coordinate limit.
pub open spec fn projection(v1: Vec2, v2: Vec2) -> Option<(Vec2, i64)> {
    let k = projection_factor(v1, v2);
    if (v2.x == 0 && v2.y == 0) || !in_limit(k) {
        None
    } else {
        Some(
            (
                Vec2 {
                    x: ((k * v2.x) / (ONE as int)) as i64,
                    y: ((k * v2.y) / (ONE as int)) as i64,
                },
                k as i64,
            ),
        )
    }
}

/// The projection of `v1` on `v2`, with its factor: see [`projection`].
pub fn vector_projection(v1: Vec2, v2: Vec2) -> (result: Option<(Vec2, i64)>)
    requires
        v1.bounded(),
        v2.bounded(),
    ensures
        result == projection(v1, v2),
{
    if v2.x == 0 && v2.y == 0 {
        return None;
    }
    let num: i128 = dot_exec(v1.x as i128, v1.y as i128, v2.x as i128, v2.y as i128);
    let den: i128 = dot_exec(v2.x as i128, v2.y as i128, v2.x as i128, v2.y as i128);
    assert(den > 0) by (nonlinear_arith)
        requires
            den == v2.x * v2.x + v2.y * v2.y,
            v2.x != 0 || v2.y != 0,
    ;
    proof {
        lemma_prod_bound(num as int, ONE as int, 8 * LIMIT * LIMIT, 1_000_000);
    }
    let k: i128 = div_floor(num * (ONE as i128), den);
    if k < -(LIMIT as i128) || k > LIMIT as i128 {
        return None;
    }
    proof {
        lemma_prod_bound(k as int, v2.x as int, LIMIT as int, LIMIT as int);
        lemma_prod_bound(k as int, v2.y as int, LIMIT as int, LIMIT as int);
        lemma_div_bound(k * v2.x, ONE as int, LIMIT * LIMIT);
        lemma_div_bound(k * v2.y, ONE as int, LIMIT * LIMIT);
        assert(LIMIT * LIMIT == 1_208_925_819_614_629_174_706_176) by (nonlinear_arith)
            requires LIMIT == 1_099_511_627_776;
    }
    let px: i128 = div_floor(k * (v2.x as i128), ONE as i128);
    let py: i128 = div_floor(k * (v2.y as i128), ONE as i128);
    assert(-0x8000_0000_0000_0000 <= px < 0x8000_0000_0000_0000) by (nonlinear_arith)
        requires
            px == (k * v2.x) / 1_000_000,
            -1_208_925_819_614_629_174_706_176 <= k * v2.x <= 1_208_925_819_614_629_174_706_176,
    ;
    assert(-0x8000_0000_0000_0000 <= py < 0x8000_0000_0000_0000) by (nonlinear_arith)
        requires
            py == (k * v2.y) / 1_000_000,
            -1_208_925_819_614_629_174_706_176 <= k * v2.y <= 1_208_925_819_614_629_174_706_176,
    ;
    Some((Vec2 { x: px as i64, y: py as i64 }, k as i64))
}

/// An oriented piece of a line, from `a` to `b`.
#[derive(Clone, Copy, Debug)]
pub struct Segment {
    pub a: Vec2,
    pub b: Vec2,
}

impl Segment {
    pub fn new(startp: Vec2, endp: Vec2) -> (result: Self)
        ensures
            result.a == startp,
            result.b == endp,
    {
        Segment { a: startp, b: endp }
    }

    /// The point where the ray from `line_point` along `line_dir` meets this
    /// segment, if it does: see [`ray_hit`].
    pub fn intercept_by_ray(&self, line_dir: Vec2, line_point: Vec2) -> (result: Option<Vec2>)
        requires
            self.a.bounded(),
            self.b.bounded(),
            line_dir.bounded(),
            line_point.bounded(),
        ensures
            result == ray_hit(self.a, self.b, line_dir, line_point),
    {
        let abx: i128 = self.b.x as i128 - self.a.x as i128;
        let aby: i128 = self.b.y as i128 - self.a.y as i128;
        let acx: i128 = line_point.x as i128 - self.a.x as i128;
        let acy: i128 = line_point.y as i128 - self.a.y as i128;
        let den: i128 = cross_exec(abx, aby, line_dir.x as i128, line_dir.y as i128);
        let num: i128 = cross_exec(abx, aby, acx, acy);
        let sn: i128 = if den > 0 { -num } else { num };
        let sd: i128 = if den < 0 { -den } else { den };
        if sd <= ONE as i128 {
            return None;
        }
        if sn < 0 {
            return None;
        }
        proof {
            lemma_prod_bound(line_dir.x as int, sn as int, LIMIT as int, 8 * LIMIT * LIMIT);
            lemma_prod_bound(line_dir.y as int, sn as int, LIMIT as int, 8 * LIMIT * LIMIT);
            lemma_div_bound(line_dir.x * sn, sd as int, LIMIT * (8 * LIMIT * LIMIT));
            lemma_div_bound(line_dir.y * sn, sd as int, LIMIT * (8 * LIMIT * LIMIT));
        }
        let ix: i128 = line_point.x as i128 + div_floor(line_dir.x as i128 * sn, sd);
        let iy: i128 = line_point.y as i128 + div_floor(line_dir.y as i128 * sn, sd);
        let dx: i128 = self.a.x as i128 - self.b.x as i128;
        let inside = if -1 <= dx && dx <= 1 {
            within_span_exec(iy - self.a.y as i128, aby)
        } else {
            within_span_exec(ix - self.a.x as i128, abx)
        };
        if inside && -(LIMIT as i128) <= ix && ix <= LIMIT as i128 && -(LIMIT as i128) <= iy && iy
            <= LIMIT as i128 {
            Some(Vec2 { x: ix as i64, y: iy as i64 })
        } else {
            None
        }
    }

    /// Whether `pt` lies on this segment: see [`on_segment`].
    pub fn is_point_on(&self, pt: Vec2) -> (result: bool)
        requires
            self.a.bounded(),
            self.b.bounded(),
            pt.bounded(),
        ensures
            result == on_segment(self.a, self.b, pt),
    {
        let abx: i128 = self.b.x as i128 - self.a.x as i128;
        let aby: i128 = self.b.y as i128 - self.a.y as i128;
        let apx: i128 = pt.x as i128 - self.a.x as i128;
        let apy: i128 = pt.y as i128 - self.a.y as i128;
        if apx == 0 && apy == 0 {
            return true;
        }
        let c: i128 = cross_exec(abx, aby, apx, apy);
        if c > ONE as i128 || c < -(ONE as i128) {
            return false;
        }
        let d: i128 = dot_exec(abx, aby, apx, apy);
        if d <= 0 {
            return false;
        }
        proof {
            lemma_same_direction(abx as int, aby as int, apx as int, apy as int);
            lemma_prod_bound(c as int, c as int, 1_000_000, 1_000_000);
            assert(c * c >= 0) by (nonlinear_arith);
        }
        let aligned = if d >= LIMIT as i128 {
            proof {
                assert(d * d >= 1_099_511_627_776 * 1_099_511_627_776) by (nonlinear_arith)
                    requires d >= 1_099_511_627_776;
            }
            true
        } else {
            proof {
                lemma_prod_bound(d as int, d as int, 1_099_511_627_776, 1_099_511_627_776);
            }
            let cc: i128 = c * c;
            let dd: i128 = d * d;
            assert(0 <= cc <= 1_000_000_000_000);
            assert(0 <= dd <= 1_099_511_627_776 * 1_099_511_627_776) by (nonlinear_arith)
                requires
                    dd == d * d,
                    0 < d < 1_099_511_627_776,
            ;
            let weight: i128 = 999_998_000_001;
            assert(0 <= weight * cc <= 999_998_000_001_000_000_000_000) by (nonlinear_arith)
                requires
                    weight == 999_998_000_001,
                    0 <= cc <= 1_000_000_000_000,
            ;
            dd * 1_999_999 >= weight * cc
        };
        aligned && dot_exec(apx, apy, apx, apy) <= dot_exec(abx, aby, abx, aby)
    }

    pub fn startp(&self) -> (result: Vec2)
        ensures
            result == self.a,
    {
        self.a
    }

    pub fn endp(&self) -> (result: Vec2)
        ensures
            result == self.b,
    {
        self.b
    }

    /// Whether `pt` is closer to the start than to the end: see
    /// [`closer_to_start`].
    pub fn point_closer_to_start(&self, pt: Vec2) -> (result: bool)
        requires
            self.a.bounded(),
            self.b.bounded(),
            pt.bounded(),
        ensures
            result == closer_to_start(self.a, self.b, pt),
    {
        let abx: i128 = self.b.x as i128 - self.a.x as i128;
        let aby: i128 = self.b.y as i128 - self.a.y as i128;
        let apx: i128 = pt.x as i128 - self.a.x as i128;
        let apy: i128 = pt.y as i128 - self.a.y as i128;
        let ab: i128 = dot_exec(abx, aby, abx, aby);
        let ap: i128 = dot_exec(apx, apy, apx, apy);
        2 * ap <= ab
    }

    /// The negation of [`Segment::point_closer_to_start`].
    pub fn point_closer_to_end(&self, pt: Vec2) -> (result: bool)
        requires
            self.a.bounded(),
            self.b.bounded(),
            pt.bounded(),
        ensures
            result == !closer_to_start(self.a, self.b, pt),
    {
        !self.point_closer_to_start(pt)
    }
}

/// A ray parallel to the segment never hits it.
pub proof fn lemma_parallel_ray_misses(a: Vec2, b: Vec2, dir: Vec2, p: Vec2)
    requires
        abs(cross(b.x - a.x, b.y - a.y, dir.x as int, dir.y as int)) <= ONE,
    ensures
        ray_hit(a, b, dir, p) is None,
{
}

/// A ray that points away from the segment (negative ray parameter) never hits it.
pub proof fn lemma_backward_ray_misses(a: Vec2, b: Vec2, dir: Vec2, p: Vec2)
    requires
        ({
            let den = cross(b.x - a.x, b.y - a.y, dir.x as int, dir.y as int);
            let num = cross(b.x - a.x, b.y - a.y, p.x - a.x, p.y - a.y);
            (den > 0 && num > 0) || (den < 0 && num < 0)
        }),
    ensures
        ray_hit(a, b, dir, p) is None,
{
}

/// A hit lies within the segment's extent on the axis it was judged on, and
/// within the coordinate limit.
pub proof fn lemma_hit_is_on_segment(a: Vec2, b: Vec2, dir: Vec2, p: Vec2)
    requires
        ray_hit(a, b, dir, p) is Some,
    ensures
        ray_hit(a, b, dir, p).unwrap().bounded(),
        abs(a.x - b.x) > 1 ==> within_span(ray_hit(a, b, dir, p).unwrap().x - a.x, b.x - a.x),
        abs(a.x - b.x) <= 1 ==> within_span(ray_hit(a, b, dir, p).unwrap().y - a.y, b.y - a.y),
{
}

/// Floor division leaves a remainder from zero up to the divisor.
proof fn lemma_floor_remainder(n: int, d: int)
    requires
        d > 0,
    ensures
        0 <= n - d * (n / d) < d,
{
    assert(0 <= n - d * (n / d) < d) by (nonlinear_arith)
        requires d > 0;
}

/// A hit lies on the ray, up to the rounding of its two coordinates: with the
/// ray parameter `s = sn / sd`, each coordinate of the hit is that of
/// `p + s * dir`, rounded down.
pub proof fn lemma_hit_is_on_ray(a: Vec2, b: Vec2, dir: Vec2, p: Vec2)
    requires
        ray_hit(a, b, dir, p) is Some,
    ensures
        ({
            let den = cross(b.x - a.x, b.y - a.y, dir.x as int, dir.y as int);
            let num = cross(b.x - a.x, b.y - a.y, p.x - a.x, p.y - a.y);
            let sn = if den > 0 { -num } else { num };
            let sd = abs(den);
            let hit = ray_hit(a, b, dir, p).unwrap();
            &&& sd > ONE
            &&& sn >= 0
            &&& sd * (hit.x - p.x) <= dir.x * sn < sd * (hit.x - p.x) + sd
            &&& sd * (hit.y - p.y) <= dir.y * sn < sd * (hit.y - p.y) + sd
        }),
{
    let den = cross(b.x - a.x, b.y - a.y, dir.x as int, dir.y as int);
    let num = cross(b.x - a.x, b.y - a.y, p.x - a.x, p.y - a.y);
    let sn = if den > 0 { -num } else { num };
    let sd = abs(den);
    lemma_floor_remainder(dir.x * sn, sd);
    lemma_floor_remainder(dir.y * sn, sd);
}

/// A hit lies on the line through the segment, up to the rounding of its two
/// coordinates: the cross product of the segment with the vector from its
/// start to the hit is at most the sum of the segment's extents.
pub proof fn lemma_hit_is_on_line(a: Vec2, b: Vec2, dir: Vec2, p: Vec2)
    requires
        ray_hit(a, b, dir, p) is Some,
    ensures
        ({
            let hit = ray_hit(a, b, dir, p).unwrap();
            abs(cross(b.x - a.x, b.y - a.y, hit.x - a.x, hit.y - a.y)) <= abs(b.x - a.x) + abs(
                b.y - a.y,
            )
        }),
{
    let abx = b.x - a.x;
    let aby = b.y - a.y;
    let acx = p.x - a.x;
    let acy = p.y - a.y;
    let dx = dir.x as int;
    let dy = dir.y as int;
    let den = cross(abx, aby, dx, dy);
    let num = cross(abx, aby, acx, acy);
    let sn = if den > 0 { -num } else { num };
    let sd = abs(den);
    let qx = (dx * sn) / sd;
    let qy = (dy * sn) / sd;
    let rx = dx * sn - sd * qx;
    let ry = dy * sn - sd * qy;
    lemma_floor_remainder(dx * sn, sd);
    lemma_floor_remainder(dy * sn, sd);
    let hit = ray_hit(a, b, dir, p).unwrap();
    assert(hit.x == p.x + qx && hit.y == p.y + qy);
    let c = cross(abx, aby, hit.x - a.x, hit.y - a.y);
    assert(c == num + abx * qy - aby * qx) by (nonlinear_arith)
        requires
            c == abx * (acy + qy) - aby * (acx + qx),
            num == abx * acy - aby * acx,
    ;
    assert(sd * num + sn * den == 0) by (nonlinear_arith)
        requires
            (den > 0 && sd == den && sn == -num) || (den <= 0 && sd == -den && sn == num),
    ;
    let ty = abx * qy;
    let tx = aby * qx;
    assert(sd * c == sd * num + sd * ty - sd * tx) by (nonlinear_arith)
        requires
            c == num + ty - tx,
    ;
    assert(sd * ty == abx * (sd * qy)) by (nonlinear_arith)
        requires
            ty == abx * qy,
    ;
    assert(abx * (sd * qy) == abx * (dy * sn) - abx * ry) by (nonlinear_arith)
        requires
            sd * qy == dy * sn - ry,
    ;
    assert(abx * (dy * sn) == sn * (abx * dy)) by (nonlinear_arith);
    assert(sd * tx == aby * (sd * qx)) by (nonlinear_arith)
        requires
            tx == aby * qx,
    ;
    assert(aby * (sd * qx) == aby * (dx * sn) - aby * rx) by (nonlinear_arith)
        requires
            sd * qx == dx * sn - rx,
    ;
    assert(aby * (dx * sn) == sn * (aby * dx)) by (nonlinear_arith);
    assert(sn * den == sn * (abx * dy) - sn * (aby * dx)) by (nonlinear_arith)
        requires
            den == abx * dy - aby * dx,
    ;
    assert(sd * c == aby * rx - abx * ry);
    let k = abs(abx) + abs(aby);
    assert(-(k * sd) <= aby * rx - abx * ry <= k * sd) by (nonlinear_arith)
        requires
            0 <= rx < sd,
            0 <= ry < sd,
            k == abs(abx) + abs(aby),
    ;
    assert(-k <= c <= k) by (nonlinear_arith)
        requires
            -(k * sd) <= sd * c <= k * sd,
            sd > 0,
    ;
}

/// An axis-aligned rectangle, given by its top-left corner and its extent.
#[derive(Clone, Copy, Debug)]
pub struct Boundary {
    pub origin: Vec2,
    pub width: i64,
    pub height: i64,
}

impl Boundary {
    /// The corner and the extent are within the coordinate limit, and the
    /// extent is not negative.
    pub open spec fn wf(self) -> bool {
        self.origin.bounded() && 0 <= self.width <= LIMIT && 0 <= self.height <= LIMIT
    }

    /// The four corners: top left, top right, bottom right, bottom left.
    pub open spec fn corners(self) -> Seq<Vec2> {
        seq![
            self.origin,
            Vec2 { x: (self.origin.x + self.width) as i64, y: self.origin.y },
            Vec2 {
                x: (self.origin.x + self.width) as i64,
                y: (self.origin.y - self.height) as i64,
            },
            Vec2 { x: self.origin.x, y: (self.origin.y - self.height) as i64 },
        ]
    }

    /// The four sides, each from one corner to the next, the last back to the first.
    pub open spec fn sides(self) -> Seq<Segment> {
        let c = self.corners();
        seq![
            Segment { a: c[0], b: c[1] },
            Segment { a: c[1], b: c[2] },
            Segment { a: c[2], b: c[3] },
            Segment { a: c[3], b: c[0] },
        ]
    }

    /// Tells whether the rectangle is well formed.
    pub fn is_wf(&self) -> (result: bool)
        ensures
            result == self.wf(),
    {
        self.origin.is_bounded() && 0 <= self.width && self.width <= LIMIT && 0 <= self.height
            && self.height <= LIMIT
    }

    pub fn from_top_left(top_left_origin: Vec2, width: i64, height: i64) -> (result: Self)
        ensures
            result.origin == top_left_origin,
            result.width == width,
            result.height == height,
    {
        Boundary { origin: top_left_origin, width, height }
    }

    pub fn top_left(&self) -> (result: Vec2)
        ensures
            result == self.origin,
    {
        self.origin
    }

    pub fn bottom_left(&self) -> (result: Vec2)
        requires
            self.wf(),
        ensures
            result.x == self.origin.x,
            result.y == self.origin.y - self.height,
    {
        Vec2 { x: self.origin.x, y: self.origin.y - self.height }
    }

    pub fn top_right(&self) -> (result: Vec2)
        requires
            self.wf(),
        ensures
            result.x == self.origin.x + self.width,
            result.y == self.origin.y,
    {
        Vec2 { x: self.origin.x + self.width, y: self.origin.y }
    }

    /// The four sides as segments: the top from left to right, the right
    /// side downward, the bottom from right to left, the left side upward.
    pub fn edges(&self) -> (result: [Segment; 4])
        requires
            self.wf(),
        ensures
            result@ == self.sides(),
    {
        let tl = self.top_left();
        let tr = self.top_right();
        let br = self.bottom_right();
        let bl = self.bottom_left();
        [Segment::new(tl, tr), Segment::new(tr, br), Segment::new(br, bl), Segment::new(bl, tl)]
    }

    pub fn bottom_right(&self) -> (result: Vec2)
        requires
            self.wf(),
        ensures
            result.x == self.origin.x + self.width,
            result.y == self.origin.y - self.height,
    {
        Vec2 { x: self.origin.x + self.width, y: self.origin.y - self.height }
    }
}

} // verus!
