//! Terrain: distance and reshaping functions, elevation and moisture from
//! noise samples, biome colours, the jittered grid of sites, and the map that
//! holds the coloured cells.

use vstd::prelude::*;
use vstd::arithmetic::div_mod::lemma_fundamental_div_mod_converse;
use crate::color::{level, RGB};
use crate::geometry::{Boundary, Vec2};
use crate::voronoi::{
    check_faces, extract_region, face_vertices, faces_wf, SiteFace, VoronoiRegion, VoronoiVertex,
};
use crate::fixed::{
    div_floor, fmul, fmul_unit, is_sqrt_floor, isqrt, lemma_mul_fixed_bound, lemma_mul_fixed_one,
    lemma_mul_fixed_unit, lemma_prod_bound, lemma_sqrt_floor_exists, mul_fixed, sqrt_floor, ONE,
};

verus! {

/// The terrain class of a cell.
#[derive(PartialEq, Eq, PartialOrd, Ord, Clone, Copy, Debug)]
pub enum Biome {
    Abyss,
    Ocean,
    Coast,
    Beach,
    Mountain,
    SnowyMountain,
    GrassLand,
    Desert,
    Forest,
    Volcan,
}

/// The biome of an elevation and a moisture, by thresholds.
pub open spec fn biome_of(e: int, m: int) -> Biome {
    if e < 80_000 {
        Biome::Ocean
    } else if e < 100_000 {
        Biome::Coast
    } else if e < 150_000 {
        Biome::Beach
    } else if e > 600_000 {
        if m > 600_000 {
            Biome::SnowyMountain
        } else {
            Biome::Mountain
        }
    } else if m < 300_000 {
        Biome::Desert
    } else if m < 600_000 {
        Biome::GrassLand
    } else {
        Biome::Forest
    }
}

/// The red, green and blue channels of a biome, from 0 to 255.
pub open spec fn biome_channels(biome: Biome) -> (u8, u8, u8) {
    match biome {
        Biome::Abyss => (10u8, 11u8, 37u8),
        Biome::Ocean => (52u8, 57u8, 168u8),
        Biome::Coast => (104u8, 106u8, 187u8),
        Biome::Beach => (162u8, 169u8, 120u8),
        Biome::Mountain => (56u8, 46u8, 46u8),
        Biome::SnowyMountain => (255u8, 255u8, 255u8),
        Biome::GrassLand => (105u8, 184u8, 119u8),
        Biome::Desert => (184u8, 168u8, 105u8),
        Biome::Forest => (36u8, 85u8, 37u8),
        Biome::Volcan => (115u8, 27u8, 27u8),
    }
}

impl Biome {
    /// The biome of an elevation and a moisture: see [`biome_of`].
    pub fn from(e: i64, m: i64) -> (result: Self)
        ensures
            result == biome_of(e as int, m as int),
    {
        if e < 80_000 {
            Self::Ocean
        } else if e < 100_000 {
            Self::Coast
        } else if e < 150_000 {
            Self::Beach
        } else if e > 600_000 {
            if m > 600_000 {
                Self::SnowyMountain
            } else {
                Self::Mountain
            }
        } else if m < 300_000 {
            Self::Desert
        } else if m < 600_000 {
            Self::GrassLand
        } else {
            Self::Forest
        }
    }

    /// The colour of the biome.
    pub fn to_color(&self) -> (result: RGB)
        ensures
            result.r == level(biome_channels(*self).0),
            result.g == level(biome_channels(*self).1),
            result.b == level(biome_channels(*self).2),
    {
        match self {
            Biome::Abyss => RGB::new(10, 11, 37),
            Biome::Ocean => RGB::new(52, 57, 168),
            Biome::Coast => RGB::new(104, 106, 187),
            Biome::Beach => RGB::new(162, 169, 120),
            Biome::Mountain => RGB::new(56, 46, 46),
            Biome::SnowyMountain => RGB::new(255, 255, 255),
            Biome::GrassLand => RGB::new(105, 184, 119),
            Biome::Desert => RGB::new(184, 168, 105),
            Biome::Forest => RGB::new(36, 85, 37),
            Biome::Volcan => RGB::new(115, 27, 27),
        }
    }
}

/// The square of a fixed-point number.
pub open spec fn sq(x: int) -> int {
    mul_fixed(x, x)
}

/// The cube of a fixed-point number.
pub open spec fn cube(x: int) -> int {
    mul_fixed(sq(x), x)
}

/// A land channel: the base level, darkened by moisture and blended toward
/// white by `peak`.
pub open spec fn land_channel(base: int, damp: int, wet: int, peak: int) -> int {
    (255 * peak + mul_fixed(base * ONE - damp * wet, ONE - peak)) / 255
}

/// The colour of an elevation and a moisture by continuous blending.
///
/// With `h = 2e - 1`: below the midline (`h < 0`) a water hue that darkens
/// with depth; above it a land hue, tinted by the moisture `m * (1 - h)` and
/// blended toward white by `h^4`.
pub open spec fn biome_color(e: int, m: int) -> RGB {
    let h = 2 * e - ONE;
    if h < 0 {
        RGB {
            r: ((48 * ONE + 48 * h) / 255) as i64,
            g: ((64 * ONE + 64 * h) / 255) as i64,
            b: ((127 * ONE + 127 * h) / 255) as i64,
        }
    } else {
        let wet = mul_fixed(m, ONE - h);
        let peak = sq(sq(h));
        RGB {
            r: land_channel(210, 100, wet, peak) as i64,
            g: land_channel(185, 45, wet, peak) as i64,
            b: land_channel(139, 45, wet, peak) as i64,
        }
    }
}

/// A land channel is a level from zero to one.
pub proof fn lemma_land_channel_range(base: int, damp: int, wet: int, peak: int)
    requires
        0 <= damp <= base <= 255,
        0 <= wet <= ONE,
        0 <= peak <= ONE,
    ensures
        0 <= land_channel(base, damp, wet, peak) <= ONE,
{
    let tint = base * ONE - damp * wet;
    let rest = ONE - peak;
    assert(0 <= damp * wet <= damp * 1_000_000) by (nonlinear_arith)
        requires 0 <= damp, 0 <= wet <= 1_000_000;
    assert(0 <= tint * rest <= 255_000_000 * rest) by (nonlinear_arith)
        requires 0 <= tint <= 255_000_000, 0 <= rest;
    assert(0 <= (tint * rest) / 1_000_000 <= 255 * rest) by (nonlinear_arith)
        requires 0 <= tint * rest <= 255_000_000 * rest;
}

/// Every channel of a blended colour is a level from zero to one.
pub proof fn lemma_biome_color_range(e: int, m: int)
    requires
        0 <= e <= ONE,
        0 <= m <= ONE,
    ensures
        0 <= biome_color(e, m).r <= ONE,
        0 <= biome_color(e, m).g <= ONE,
        0 <= biome_color(e, m).b <= ONE,
{
    let h = 2 * e - ONE;
    if h >= 0 {
        lemma_mul_fixed_unit(m, ONE - h);
        lemma_mul_fixed_unit(h, h);
        lemma_mul_fixed_unit(sq(h), sq(h));
        let wet = mul_fixed(m, ONE - h);
        let peak = sq(sq(h));
        lemma_land_channel_range(210, 100, wet, peak);
        lemma_land_channel_range(185, 45, wet, peak);
        lemma_land_channel_range(139, 45, wet, peak);
    }
}

fn land_channel_exec(base: i64, damp: i64, wet: i64, peak: i64) -> (result: i64)
    requires
        0 <= base <= 255,
        0 <= damp <= 255,
        0 <= wet <= ONE,
        0 <= peak <= ONE,
    ensures
        result == land_channel(base as int, damp as int, wet as int, peak as int),
{
    proof {
        lemma_prod_bound(damp as int, wet as int, 255, 1_000_000);
    }
    let tint: i64 = base * ONE - damp * wet;
    let mixed: i64 = fmul(
        tint,
        ONE - peak,
        Ghost(255_000_000),
        Ghost(1_000_000),
        Ghost(255_000_000),
    );
    div_floor((255 * peak + mixed) as i128, 255) as i64
}

/// The colour of an elevation and a moisture, both from zero to one: see
/// [`biome_color`].
pub fn get_biome_color(elevation: i64, moisture: i64) -> (result: RGB)
    requires
        0 <= elevation <= ONE,
        0 <= moisture <= ONE,
    ensures
        result == biome_color(elevation as int, moisture as int),
        0 <= result.r <= ONE,
        0 <= result.g <= ONE,
        0 <= result.b <= ONE,
{
    proof {
        lemma_biome_color_range(elevation as int, moisture as int);
    }
    let h: i64 = 2 * elevation - ONE;
    if h < 0 {
        RGB::new_f32(
            (48 * ONE + 48 * h) / 255,
            (64 * ONE + 64 * h) / 255,
            (127 * ONE + 127 * h) / 255,
        )
    } else {
        proof {
            lemma_mul_fixed_unit(moisture as int, ONE - h);
            lemma_mul_fixed_unit(h as int, h as int);
            lemma_mul_fixed_unit(sq(h as int), sq(h as int));
        }
        let wet: i64 = fmul_unit(moisture, ONE - h);
        let h2: i64 = fmul_unit(h, h);
        let peak: i64 = fmul_unit(h2, h2);
        RGB::new_f32(
            land_channel_exec(210, 100, wet, peak),
            land_channel_exec(185, 45, wet, peak),
            land_channel_exec(139, 45, wet, peak),
        )
    }
}

/// How an elevation and a moisture become a colour.
#[derive(PartialEq, Eq, Clone, Copy, Debug)]
pub enum BiomeClassifier {
    /// Continuous blending: see [`biome_color`].
    Blend,
    /// Discrete biomes, each with its own colour: see [`biome_of`].
    Buckets,
}

/// The colour that the classifier gives to an elevation and a moisture.
pub open spec fn classified(classifier: BiomeClassifier, e: int, m: int) -> RGB {
    match classifier {
        BiomeClassifier::Blend => biome_color(e, m),
        BiomeClassifier::Buckets => {
            let channels = biome_channels(biome_of(e, m));
            RGB {
                r: level(channels.0) as i64,
                g: level(channels.1) as i64,
                b: level(channels.2) as i64,
            }
        },
    }
}

impl BiomeClassifier {
    /// The colour of an elevation and a moisture, both from zero to one:
    /// see [`classified`]. Every channel is a level from zero to one.
    pub fn classify(&self, elevation: i64, moisture: i64) -> (result: RGB)
        requires
            0 <= elevation <= ONE,
            0 <= moisture <= ONE,
        ensures
            result == classified(*self, elevation as int, moisture as int),
            0 <= result.r <= ONE,
            0 <= result.g <= ONE,
            0 <= result.b <= ONE,
    {
        match self {
            BiomeClassifier::Blend => get_biome_color(elevation, moisture),
            BiomeClassifier::Buckets => Biome::from(elevation, moisture).to_color(),
        }
    }
}

/// The largest magnitude of a distance or an elevation that a reshaping
/// function accepts: `2^28` millionths, about 268. It is the largest power of
/// two for which the value of every reshaping function, whose terms grow with
/// the fifth power of its arguments, is an `i64`.
pub const SHAPE_LIMIT: i64 = 268_435_456;

/// The largest magnitude of a control value of [`bezier3`]: twenty million.
/// With a parameter up to `SHAPE_LIMIT` the value of the curve is then an `i64`.
pub const CONTROL_LIMIT: i64 = 20_000_000_000_000;

/// `v`, raised to `lo` if it is below and then lowered to `hi` if it is above.
pub open spec fn clamped(v: int, lo: int, hi: int) -> int {
    let raised = if v < lo { lo } else { v };
    if raised > hi { hi } else { raised }
}

/// The quadratic curve through `start` at `t = 0` and `end` at `t = 1`, drawn
/// toward `pull`: `pull + (1 - t)^2 * (start - pull) + t^2 * (end - pull)`.
pub open spec fn bezier(start: int, pull: int, end: int, t: int) -> int {
    pull + mul_fixed(sq(ONE - t), start - pull) + mul_fixed(sq(t), end - pull)
}

/// `1 - (1 - d)^2`.
pub open spec fn ease2(d: int) -> int {
    ONE - sq(ONE - d)
}

/// `1 - (1 - d)^3`.
pub open spec fn ease3(d: int) -> int {
    ONE - cube(ONE - d)
}

/// The larger of two numbers.
pub open spec fn max(a: int, b: int) -> int {
    if a >= b { a } else { b }
}

/// The smaller of two numbers.
pub open spec fn min(a: int, b: int) -> int {
    if a <= b { a } else { b }
}

fn clamp_exec(v: i64, lo: i64, hi: i64) -> (result: i64)
    ensures
        result == clamped(v as int, lo as int, hi as int),
{
    let raised: i64 = if v < lo { lo } else { v };
    if raised > hi { hi } else { raised }
}

fn max_exec(a: i64, b: i64) -> (result: i64)
    ensures
        result == max(a as int, b as int),
{
    if a >= b { a } else { b }
}

fn min_exec(a: i64, b: i64) -> (result: i64)
    ensures
        result == min(a as int, b as int),
{
    if a <= b { a } else { b }
}

/// The square of a number of magnitude at most `SHAPE_LIMIT` plus one.
fn sq_exec(x: i64) -> (result: i64)
    requires
        -269_435_456 <= x <= 269_435_456,
    ensures
        result == sq(x as int),
        -72_596_000_000 <= result <= 72_596_000_000,
{
    fmul(x, x, Ghost(269_435_456), Ghost(269_435_456), Ghost(72_596_000_000))
}

/// The cube of a number of magnitude at most `SHAPE_LIMIT` plus one.
fn cube_exec(x: i64) -> (result: i64)
    requires
        -269_435_456 <= x <= 269_435_456,
    ensures
        result == cube(x as int),
        -19_560_000_000_000 <= result <= 19_560_000_000_000,
{
    let s: i64 = sq_exec(x);
    fmul(s, x, Ghost(72_596_000_000), Ghost(269_435_456), Ghost(19_560_000_000_000))
}

/// The quadratic curve of [`bezier`] at `t`.
pub fn bezier3(start: i64, pull: i64, end: i64, t: i64) -> (result: i64)
    requires
        -CONTROL_LIMIT <= start <= CONTROL_LIMIT,
        -CONTROL_LIMIT <= pull <= CONTROL_LIMIT,
        -CONTROL_LIMIT <= end <= CONTROL_LIMIT,
        -SHAPE_LIMIT <= t <= SHAPE_LIMIT,
    ensures
        result == bezier(start as int, pull as int, end as int, t as int),
        -5_807_700_000_000_000_000 <= result <= 5_807_700_000_000_000_000,
{
    let near: i64 = sq_exec(ONE - t);
    let far: i64 = sq_exec(t);
    let a: i64 = fmul(
        near,
        start - pull,
        Ghost(72_596_000_000),
        Ghost(40_000_000_000_000),
        Ghost(2_903_840_000_000_000_000),
    );
    let b: i64 = fmul(
        far,
        end - pull,
        Ghost(72_596_000_000),
        Ghost(40_000_000_000_000),
        Ghost(2_903_840_000_000_000_000),
    );
    pull + a + b
}

/// A curve whose three control values are the same stays at that value.
pub proof fn lemma_bezier_constant(value: int, t: int)
    ensures
        bezier(value, value, value, t) == value,
{
    lemma_mul_fixed_one(sq(ONE - t));
    lemma_mul_fixed_one(sq(t));
}

/// The curve starts at `start` and ends at `end`.
pub proof fn lemma_bezier_ends(start: int, pull: int, end: int)
    ensures
        bezier(start, pull, end, 0) == start,
        bezier(start, pull, end, ONE as int) == end,
{
    lemma_mul_fixed_one(ONE as int);
    lemma_mul_fixed_one(0);
    lemma_mul_fixed_one(start - pull);
    lemma_mul_fixed_one(end - pull);
}

/// How the raw elevation and the distance from the centre are blended.
#[derive(PartialEq, Eq, PartialOrd, Ord, Clone, Copy, Debug)]
pub enum ReshapingFn {
    Input,
    Flat,
    Linear,
    LinearSteep,
    Clamped,
    Smooth,
    Smooth2,
    Smooth3,
    ClampedLess,
    SmoothLow,
    Smooth3Low,
    Archipelago,
}

/// The blend of the distance `d` and the elevation `e` that `f` stands for.
pub open spec fn reshaped(f: ReshapingFn, d: int, e: int) -> int {
    match f {
        ReshapingFn::Input => e,
        ReshapingFn::Flat => d,
        ReshapingFn::Linear => (e + d) / 2,
        ReshapingFn::LinearSteep => mul_fixed(ONE - e, clamped(d - 500_000, 0, ONE as int))
            + mul_fixed(e, clamped(d + 500_000, 0, ONE as int)),
        ReshapingFn::Clamped => clamped(e, d - 490_000, d + 490_000),
        ReshapingFn::Smooth => bezier(
            max(d - 500_000, 0),
            500_000,
            min(d + 500_000, ONE as int),
            e,
        ),
        ReshapingFn::Smooth2 => bezier(
            max(sq(d) - 500_000, 0),
            500_000,
            min(ease2(d) + 500_000, ONE as int),
            e,
        ),
        ReshapingFn::Smooth3 => bezier(
            max(cube(d) - 500_000, 0),
            500_000,
            min(ease3(d) + 500_000, ONE as int),
            e,
        ),
        ReshapingFn::ClampedLess => clamped(e, sq(d) - 450_000, ease2(d) + 450_000),
        ReshapingFn::SmoothLow => bezier(0, 500_000, min(d + 500_000, ONE as int), e),
        ReshapingFn::Smooth3Low => bezier(0, 500_000, min(ease3(d) + 500_000, ONE as int), e),
        ReshapingFn::Archipelago => {
            let ridge = ONE - 2 * (if d - 500_000 < 0 { 500_000 - d } else { d - 500_000 });
            bezier(max(ridge - 750_000, 0), 416_666, min(ridge + 500_000, ONE as int), e)
        },
    }
}

impl ReshapingFn {
    /// The blend of the distance `d` and the elevation `e`: see [`reshaped`].
    pub fn apply(&self, d: i64, e: i64) -> (result: i64)
        requires
            -SHAPE_LIMIT <= d <= SHAPE_LIMIT,
            -SHAPE_LIMIT <= e <= SHAPE_LIMIT,
        ensures
            result == reshaped(*self, d as int, e as int),
            -5_807_700_000_000_000_000 <= result <= 5_807_700_000_000_000_000,
    {
        match self {
            ReshapingFn::Input => e,
            ReshapingFn::Flat => d,
            ReshapingFn::Linear => div_floor((e + d) as i128, 2) as i64,
            ReshapingFn::LinearSteep => {
                let low: i64 = clamp_exec(d - 500_000, 0, ONE);
                let high: i64 = clamp_exec(d + 500_000, 0, ONE);
                let a: i64 = fmul(
                    ONE - e,
                    low,
                    Ghost(269_435_456),
                    Ghost(1_000_000),
                    Ghost(269_435_456),
                );
                let b: i64 = fmul(
                    e,
                    high,
                    Ghost(269_435_456),
                    Ghost(1_000_000),
                    Ghost(269_435_456),
                );
                a + b
            },
            ReshapingFn::Clamped => clamp_exec(e, d - 490_000, d + 490_000),
            ReshapingFn::Smooth => bezier3(
                max_exec(d - 500_000, 0),
                500_000,
                min_exec(d + 500_000, ONE),
                e,
            ),
            ReshapingFn::Smooth2 => bezier3(
                max_exec(sq_exec(d) - 500_000, 0),
                500_000,
                min_exec((ONE - sq_exec(ONE - d)) + 500_000, ONE),
                e,
            ),
            ReshapingFn::Smooth3 => bezier3(
                max_exec(cube_exec(d) - 500_000, 0),
                500_000,
                min_exec((ONE - cube_exec(ONE - d)) + 500_000, ONE),
                e,
            ),
            ReshapingFn::ClampedLess => clamp_exec(
                e,
                sq_exec(d) - 450_000,
                (ONE - sq_exec(ONE - d)) + 450_000,
            ),
            ReshapingFn::SmoothLow => bezier3(0, 500_000, min_exec(d + 500_000, ONE), e),
            ReshapingFn::Smooth3Low => bezier3(
                0,
                500_000,
                min_exec((ONE - cube_exec(ONE - d)) + 500_000, ONE),
                e,
            ),
            ReshapingFn::Archipelago => {
                let off: i64 = d - 500_000;
                let ridge: i64 = ONE - 2 * (if off < 0 { -off } else { off });
                bezier3(max_exec(ridge - 750_000, 0), 416_666, min_exec(ridge + 500_000, ONE), e)
            },
        }
    }
}

/// How far a point is from the centre of the unit square.
#[derive(PartialEq, Eq, PartialOrd, Ord, Clone, Copy, Debug)]
pub enum DistanceFn {
    Euclidean,
    Euclidean2,
    Hyperboloid,
    Squircle,
    SquareBump,
    TrigProduct,
    Diagonal,
    Manhattan,
}

/// The square root of two, rounded down.
pub const SQRT_2: i64 = 1_414_213;

/// What the hyperboloid rises to at the corner of the unit square:
/// `sqrt(2.04) - 0.2`, rounded down.
pub const HYPERBOLOID_SPAN: i64 = 1_228_285;

/// The magnitude of a number.
pub open spec fn magnitude(v: int) -> int {
    if v < 0 { -v } else { v }
}

/// The distance of `(x, y)` from the centre that `f` stands for. `cos_x` and
/// `cos_y` are the cosines of `x * pi / 2` and `y * pi / 2`, which only the
/// product of cosines reads.
pub open spec fn distance(f: DistanceFn, x: int, y: int, cos_x: int, cos_y: int) -> int {
    match f {
        DistanceFn::Euclidean => sqrt_floor((x * x + y * y) / 2),
        DistanceFn::Euclidean2 => (x * x + y * y) / (SQRT_2 as int),
        DistanceFn::Hyperboloid => ((sqrt_floor(x * x + y * y + 40_000_000_000) - 200_000) * ONE)
            / (HYPERBOLOID_SPAN as int),
        DistanceFn::Squircle => sqrt_floor(((x * x) * (x * x) + (y * y) * (y * y)) / 2) / (
        ONE as int),
        DistanceFn::SquareBump => ONE - mul_fixed(ONE - sq(x), ONE - sq(y)),
        DistanceFn::TrigProduct => ONE - mul_fixed(cos_x, cos_y),
        DistanceFn::Diagonal => max(magnitude(x), magnitude(y)),
        DistanceFn::Manhattan => (magnitude(x) + magnitude(y)) / 2,
    }
}

/// The largest magnitude of a coordinate that a distance function accepts:
/// `2^30` millionths, about 1073. It is the largest power of two for which
/// the value of every distance function, whose terms grow with the fourth
/// power of the coordinates, is an `i64`.
pub const DISTANCE_LIMIT: i64 = 1_073_741_824;

/// Both coordinates lie from minus one to one.
pub open spec fn in_unit_square(x: int, y: int) -> bool {
    -ONE <= x <= ONE && -ONE <= y <= ONE
}

/// The square of a coordinate, as a plain product.
fn coordinate_product(x: i64) -> (result: i128)
    requires
        -DISTANCE_LIMIT <= x <= DISTANCE_LIMIT,
    ensures
        result == x * x,
        0 <= result <= 1_152_921_504_606_846_976,
        -ONE <= x <= ONE ==> result <= 1_000_000_000_000,
{
    proof {
        lemma_prod_bound(x as int, x as int, 1_073_741_824, 1_073_741_824);
        assert(x * x >= 0) by (nonlinear_arith);
        if -ONE <= x <= ONE {
            lemma_prod_bound(x as int, x as int, 1_000_000, 1_000_000);
        }
    }
    (x as i128) * (x as i128)
}

/// The square of a coordinate, as a fixed-point number.
fn coordinate_square(x: i64) -> (result: i64)
    requires
        -DISTANCE_LIMIT <= x <= DISTANCE_LIMIT,
    ensures
        result == sq(x as int),
        0 <= result <= 1_152_921_504_607,
        -ONE <= x <= ONE ==> result <= ONE,
{
    let p: i128 = coordinate_product(x);
    assert(0 <= p / 1_000_000 <= 1_152_921_504_607) by (nonlinear_arith)
        requires 0 <= p <= 1_152_921_504_606_846_976;
    assert(p <= 1_000_000_000_000 ==> p / 1_000_000 <= 1_000_000) by (nonlinear_arith)
        requires 0 <= p;
    (p / 1_000_000) as i64
}

fn magnitude_exec(v: i64) -> (result: i64)
    requires
        v > i64::MIN,
    ensures
        result == magnitude(v as int),
{
    if v < 0 { -v } else { v }
}

/// A rounded-down square root is bounded by the root of a bound.
proof fn lemma_sqrt_bounds(n: int, r: int, lo: int, hi: int)
    requires
        is_sqrt_floor(n, r),
        0 <= lo,
        lo * lo <= n,
        n < (hi + 1) * (hi + 1),
        0 <= hi,
    ensures
        lo <= r <= hi,
{
    if r < lo {
        assert((r + 1) * (r + 1) <= lo * lo) by (nonlinear_arith)
            requires 0 <= r, r + 1 <= lo;
    }
    if r > hi {
        assert((hi + 1) * (hi + 1) <= r * r) by (nonlinear_arith)
            requires 0 <= hi, hi + 1 <= r;
    }
}

impl DistanceFn {
    /// The distance of `(x, y)` from the centre: see [`distance`]. On the
    /// unit square it lies between zero and two.
    pub fn apply(&self, x: i64, y: i64, cos_x: i64, cos_y: i64) -> (result: i64)
        requires
            -DISTANCE_LIMIT <= x <= DISTANCE_LIMIT,
            -DISTANCE_LIMIT <= y <= DISTANCE_LIMIT,
            -ONE <= cos_x <= ONE,
            -ONE <= cos_y <= ONE,
        ensures
            result == distance(*self, x as int, y as int, cos_x as int, cos_y as int),
            in_unit_square(x as int, y as int) ==> 0 <= result <= 2 * ONE,
    {
        proof {
            if in_unit_square(x as int, y as int) {
                lemma_distance_range(*self, x as int, y as int, cos_x as int, cos_y as int);
            }
        }
        match self {
            DistanceFn::Euclidean => {
                let n: i128 = (coordinate_product(x) + coordinate_product(y)) / 2;
                let r: u128 = isqrt(n as u128);
                proof {
                    lemma_sqrt_bounds(n as int, r as int, 0, 1_073_741_824);
                }
                r as i64
            },
            DistanceFn::Euclidean2 => {
                let n: i128 = coordinate_product(x) + coordinate_product(y);
                (n / (SQRT_2 as i128)) as i64
            },
            DistanceFn::Hyperboloid => {
                let n: i128 = coordinate_product(x) + coordinate_product(y) + 40_000_000_000;
                let r: u128 = isqrt(n as u128);
                proof {
                    lemma_sqrt_bounds(n as int, r as int, 200_000, 1_518_500_263);
                }
                let rise: i128 = (r as i128 - 200_000) * 1_000_000;
                (rise / (HYPERBOLOID_SPAN as i128)) as i64
            },
            DistanceFn::Squircle => {
                let qx: i128 = coordinate_product(x);
                let qy: i128 = coordinate_product(y);
                proof {
                    lemma_prod_bound(
                        qx as int,
                        qx as int,
                        1_152_921_504_606_846_976,
                        1_152_921_504_606_846_976,
                    );
                    lemma_prod_bound(
                        qy as int,
                        qy as int,
                        1_152_921_504_606_846_976,
                        1_152_921_504_606_846_976,
                    );
                    assert(qx * qx >= 0 && qy * qy >= 0) by (nonlinear_arith);
                }
                let n: i128 = (qx * qx + qy * qy) / 2;
                let r: u128 = isqrt(n as u128);
                proof {
                    lemma_sqrt_bounds(n as int, r as int, 0, 1_152_921_504_606_846_976);
                }
                (r / 1_000_000) as i64
            },
            DistanceFn::SquareBump => {
                let a: i64 = ONE - coordinate_square(x);
                let b: i64 = ONE - coordinate_square(y);
                ONE - fmul(
                    a,
                    b,
                    Ghost(1_152_923_000_000),
                    Ghost(1_152_923_000_000),
                    Ghost(1_329_232_000_000_000_000),
                )
            },
            DistanceFn::TrigProduct => ONE - fmul_unit(cos_x, cos_y),
            DistanceFn::Diagonal => max_exec(magnitude_exec(x), magnitude_exec(y)),
            DistanceFn::Manhattan => (magnitude_exec(x) + magnitude_exec(y)) / 2,
        }
    }
}

/// On the unit square, and with cosines from minus one to one, every
/// distance lies between zero and two.
pub proof fn lemma_distance_range(f: DistanceFn, x: int, y: int, cos_x: int, cos_y: int)
    requires
        in_unit_square(x, y),
        -ONE <= cos_x <= ONE,
        -ONE <= cos_y <= ONE,
    ensures
        0 <= distance(f, x, y, cos_x, cos_y) <= 2 * ONE,
{
    let px = x * x;
    let py = y * y;
    lemma_prod_bound(x, x, 1_000_000, 1_000_000);
    lemma_prod_bound(y, y, 1_000_000, 1_000_000);
    assert(px >= 0 && py >= 0) by (nonlinear_arith)
        requires
            px == x * x,
            py == y * y,
    ;
    match f {
        DistanceFn::Euclidean => {
            let n = (px + py) / 2;
            lemma_sqrt_floor_exists(n);
            lemma_sqrt_bounds(n, sqrt_floor(n), 0, 1_000_000);
        },
        DistanceFn::Euclidean2 => {},
        DistanceFn::Hyperboloid => {
            let n = px + py + 40_000_000_000;
            lemma_sqrt_floor_exists(n);
            lemma_sqrt_bounds(n, sqrt_floor(n), 200_000, 1_428_285);
        },
        DistanceFn::Squircle => {
            lemma_prod_bound(px, px, 1_000_000_000_000, 1_000_000_000_000);
            lemma_prod_bound(py, py, 1_000_000_000_000, 1_000_000_000_000);
            assert(px * px >= 0 && py * py >= 0) by (nonlinear_arith);
            let n = (px * px + py * py) / 2;
            lemma_sqrt_floor_exists(n);
            lemma_sqrt_bounds(n, sqrt_floor(n), 0, 1_000_000_000_000);
        },
        DistanceFn::SquareBump => {
            lemma_mul_fixed_unit(ONE - sq(x), ONE - sq(y));
        },
        DistanceFn::TrigProduct => {
            lemma_mul_fixed_bound(cos_x, cos_y, 1_000_000, 1_000_000, 1_000_000);
        },
        DistanceFn::Diagonal => {},
        DistanceFn::Manhattan => {},
    }
}

/// Every distance is even in each coordinate, and stays the same when the
/// two coordinates change places together with their cosines.
pub proof fn lemma_distance_symmetric(f: DistanceFn, x: int, y: int, cos_x: int, cos_y: int)
    ensures
        distance(f, -x, y, cos_x, cos_y) == distance(f, x, y, cos_x, cos_y),
        distance(f, x, -y, cos_x, cos_y) == distance(f, x, y, cos_x, cos_y),
        distance(f, y, x, cos_y, cos_x) == distance(f, x, y, cos_x, cos_y),
{
    assert((-x) * (-x) == x * x && (-y) * (-y) == y * y) by (nonlinear_arith);
    assert(cos_y * cos_x == cos_x * cos_y) by (nonlinear_arith);
    let a = ONE - sq(x);
    let b = ONE - sq(y);
    assert(a * b == b * a) by (nonlinear_arith);
}

/// The clamped blend stays within 0.49 of the distance, and is the
/// elevation itself where that lies in the band.
pub proof fn lemma_clamped_band(d: int, e: int)
    ensures
        d - 490_000 <= reshaped(ReshapingFn::Clamped, d, e) <= d + 490_000,
        d - 490_000 <= e <= d + 490_000 ==> reshaped(ReshapingFn::Clamped, d, e) == e,
{
}

/// The archipelago is folded around one half: a distance and its mirror
/// image give the same blend.
pub proof fn lemma_archipelago_fold(d: int, e: int)
    ensures
        reshaped(ReshapingFn::Archipelago, ONE - d, e) == reshaped(ReshapingFn::Archipelago, d, e),
{
}

/// The side of the square that the noise fields are laid over, in world units.
pub const GRID_SIZE: i64 = 64;

/// What the outside sources give for one site: the two noise values, each
/// from minus one to one, and the cosines of the site's noise coordinates
/// times `pi / 2`.
#[derive(Clone, Copy, Debug)]
pub struct SiteSample {
    pub elevation_noise: i64,
    pub moisture_noise: i64,
    pub cos_x: i64,
    pub cos_y: i64,
}

impl SiteSample {
    /// Every value lies from minus one to one.
    pub open spec fn wf(self) -> bool {
        -ONE <= self.elevation_noise <= ONE && -ONE <= self.moisture_noise <= ONE && -ONE
            <= self.cos_x <= ONE && -ONE <= self.cos_y <= ONE
    }
}

/// Where the noise fields are sampled for a site: the site divided by the grid size.
pub open spec fn noise_point(site: Vec2) -> Vec2 {
    Vec2 {
        x: ((site.x as int) / (GRID_SIZE as int)) as i64,
        y: ((site.y as int) / (GRID_SIZE as int)) as i64,
    }
}

/// The elevation of a site, from zero to one.
///
/// The raw elevation is `1 + noise`. With the distance `d` of the noise point
/// from the centre and the blend `r` of `d` and the raw elevation, the
/// elevation is `(1 + raw - 1.5 * r) / 2`, kept within zero and one.
///
/// A site far from the grid is not refused: a noise coordinate beyond
/// `DISTANCE_LIMIT` counts as that limit, and a distance beyond `SHAPE_LIMIT`
/// counts as that limit. Where neither is reached the elevation is the
/// formula itself (see [`lemma_elevation_formula`]), and on the unit square
/// neither is (see [`lemma_elevation_on_unit_square`]).
pub open spec fn elevation_value(
    distance_fn: DistanceFn,
    reshape_fn: ReshapingFn,
    site: Vec2,
    sample: SiteSample,
) -> int {
    let at = noise_point(site);
    let x = clamped(at.x as int, -DISTANCE_LIMIT, DISTANCE_LIMIT as int);
    let y = clamped(at.y as int, -DISTANCE_LIMIT, DISTANCE_LIMIT as int);
    let raw = ONE + sample.elevation_noise;
    let d = clamped(
        distance(distance_fn, x, y, sample.cos_x as int, sample.cos_y as int),
        -SHAPE_LIMIT,
        SHAPE_LIMIT as int,
    );
    clamped((2 * ONE + 2 * raw - 3 * reshaped(reshape_fn, d, raw)) / 4, 0, ONE as int)
}

/// Where the noise point lies within `DISTANCE_LIMIT` and its distance
/// within `SHAPE_LIMIT`, the elevation is the formula of the noise point
/// itself.
pub proof fn lemma_elevation_formula(
    distance_fn: DistanceFn,
    reshape_fn: ReshapingFn,
    site: Vec2,
    sample: SiteSample,
)
    requires
        -DISTANCE_LIMIT <= noise_point(site).x <= DISTANCE_LIMIT,
        -DISTANCE_LIMIT <= noise_point(site).y <= DISTANCE_LIMIT,
        -SHAPE_LIMIT <= distance(
            distance_fn,
            noise_point(site).x as int,
            noise_point(site).y as int,
            sample.cos_x as int,
            sample.cos_y as int,
        ) <= SHAPE_LIMIT,
    ensures
        ({
            let at = noise_point(site);
            let raw = ONE + sample.elevation_noise;
            let d = distance(
                distance_fn,
                at.x as int,
                at.y as int,
                sample.cos_x as int,
                sample.cos_y as int,
            );
            elevation_value(distance_fn, reshape_fn, site, sample) == clamped(
                (2 * ONE + 2 * raw - 3 * reshaped(reshape_fn, d, raw)) / 4,
                0,
                ONE as int,
            )
        }),
{
}

/// On the unit square no limit is reached: the elevation is the formula
/// of the noise point itself.
pub proof fn lemma_elevation_on_unit_square(
    distance_fn: DistanceFn,
    reshape_fn: ReshapingFn,
    site: Vec2,
    sample: SiteSample,
)
    requires
        in_unit_square(noise_point(site).x as int, noise_point(site).y as int),
        sample.wf(),
    ensures
        ({
            let at = noise_point(site);
            let raw = ONE + sample.elevation_noise;
            let d = distance(
                distance_fn,
                at.x as int,
                at.y as int,
                sample.cos_x as int,
                sample.cos_y as int,
            );
            elevation_value(distance_fn, reshape_fn, site, sample) == clamped(
                (2 * ONE + 2 * raw - 3 * reshaped(reshape_fn, d, raw)) / 4,
                0,
                ONE as int,
            )
        }),
{
    let at = noise_point(site);
    lemma_distance_range(
        distance_fn,
        at.x as int,
        at.y as int,
        sample.cos_x as int,
        sample.cos_y as int,
    );
}

/// The moisture of a noise value: `(1 - noise) / 2`.
pub open spec fn moisture_value(noise: int) -> int {
    (ONE - noise) / 2
}

/// The colour of a site: that of its elevation and its moisture.
pub open spec fn site_color(
    distance_fn: DistanceFn,
    reshape_fn: ReshapingFn,
    site: Vec2,
    sample: SiteSample,
) -> RGB {
    biome_color(
        elevation_value(distance_fn, reshape_fn, site, sample),
        moisture_value(sample.moisture_noise as int),
    )
}

/// Where the noise fields are sampled for a site: see [`noise_point`].
pub fn noise_coordinate(site: Vec2) -> (result: Vec2)
    ensures
        result == noise_point(site),
{
    Vec2 {
        x: div_floor(site.x as i128, GRID_SIZE as i128) as i64,
        y: div_floor(site.y as i128, GRID_SIZE as i128) as i64,
    }
}

/// The elevation of one site: see [`elevation_value`].
pub fn site_elevation(
    distance_fn: DistanceFn,
    reshape_fn: ReshapingFn,
    site: Vec2,
    sample: &SiteSample,
) -> (result: i64)
    requires
        sample.wf(),
    ensures
        result == elevation_value(distance_fn, reshape_fn, site, *sample),
        0 <= result <= ONE,
{
    let at = noise_coordinate(site);
    let x: i64 = clamp_exec(at.x, -DISTANCE_LIMIT, DISTANCE_LIMIT);
    let y: i64 = clamp_exec(at.y, -DISTANCE_LIMIT, DISTANCE_LIMIT);
    let raw: i64 = ONE + sample.elevation_noise;
    let reach: i64 = distance_fn.apply(x, y, sample.cos_x, sample.cos_y);
    let d: i64 = clamp_exec(reach, -SHAPE_LIMIT, SHAPE_LIMIT);
    let shaped: i64 = reshape_fn.apply(d, raw);
    let mixed: i128 = div_floor(2 * (ONE as i128) + 2 * (raw as i128) - 3 * (shaped as i128), 4);
    if mixed < 0 {
        0
    } else if mixed > ONE as i128 {
        ONE
    } else {
        mixed as i64
    }
}

/// The moisture of one noise value: see [`moisture_value`].
pub fn site_moisture(noise: i64) -> (result: i64)
    requires
        -ONE <= noise <= ONE,
    ensures
        result == moisture_value(noise as int),
        0 <= result <= ONE,
{
    (ONE - noise) / 2
}

/// The elevation of every region, in the order of the regions.
pub fn assign_elevation_map(
    regions: &Vec<VoronoiRegion>,
    samples: &Vec<SiteSample>,
    distance_fn: DistanceFn,
    reshape_fn: ReshapingFn,
) -> (result: Vec<i64>)
    requires
        samples@.len() == regions@.len(),
        forall|i: int| 0 <= i < samples@.len() ==> (#[trigger] samples@[i]).wf(),
    ensures
        result@.len() == regions@.len(),
        forall|i: int|
            0 <= i < regions@.len() ==> #[trigger] result@[i] == elevation_value(
                distance_fn,
                reshape_fn,
                regions@[i].site,
                samples@[i],
            ),
        forall|i: int| 0 <= i < result@.len() ==> 0 <= #[trigger] result@[i] <= ONE,
{
    let mut elevation_map: Vec<i64> = Vec::new();
    let mut i: usize = 0;
    while i < regions.len()
        invariant
            samples@.len() == regions@.len(),
            forall|k: int| 0 <= k < samples@.len() ==> (#[trigger] samples@[k]).wf(),
            0 <= i <= regions@.len(),
            elevation_map@.len() == i,
            forall|k: int|
                0 <= k < i ==> #[trigger] elevation_map@[k] == elevation_value(
                    distance_fn,
                    reshape_fn,
                    regions@[k].site,
                    samples@[k],
                ),
            forall|k: int| 0 <= k < i ==> 0 <= #[trigger] elevation_map@[k] <= ONE,
        decreases regions@.len() - i,
    {
        let e = site_elevation(distance_fn, reshape_fn, regions[i].site, &samples[i]);
        elevation_map.push(e);
        i = i + 1;
    }
    elevation_map
}

/// The moisture of every sample, in the order of the samples.
pub fn assign_moisture_map(samples: &Vec<SiteSample>) -> (result: Vec<i64>)
    requires
        forall|i: int| 0 <= i < samples@.len() ==> (#[trigger] samples@[i]).wf(),
    ensures
        result@.len() == samples@.len(),
        forall|i: int|
            0 <= i < samples@.len() ==> #[trigger] result@[i] == moisture_value(
                samples@[i].moisture_noise as int,
            ),
        forall|i: int| 0 <= i < result@.len() ==> 0 <= #[trigger] result@[i] <= ONE,
{
    let mut moisture_map: Vec<i64> = Vec::new();
    let mut i: usize = 0;
    while i < samples.len()
        invariant
            forall|k: int| 0 <= k < samples@.len() ==> (#[trigger] samples@[k]).wf(),
            0 <= i <= samples@.len(),
            moisture_map@.len() == i,
            forall|k: int|
                0 <= k < i ==> #[trigger] moisture_map@[k] == moisture_value(
                    samples@[k].moisture_noise as int,
                ),
            forall|k: int| 0 <= k < i ==> 0 <= #[trigger] moisture_map@[k] <= ONE,
        decreases samples@.len() - i,
    {
        let m = site_moisture(samples[i].moisture_noise);
        moisture_map.push(m);
        i = i + 1;
    }
    moisture_map
}

/// A cell of the finished map: its site, its closed polygon and its colour.
#[derive(Debug)]
pub struct MapRegion {
    pub site: Vec2,
    pub vertices: Vec<VoronoiVertex>,
    pub color: RGB,
}

/// A finished map: the boundary it was made for and its cells.
#[derive(Debug)]
pub struct WorldMap {
    pub boundary: Boundary,
    pub regions: Vec<MapRegion>,
}

/// `map` is the map of these faces and samples: one cell per face, in the
/// order of the faces, each with the site and the polygon of its face and
/// with the colour of its sample.
pub open spec fn is_map_of(
    map: WorldMap,
    boundary: Boundary,
    faces: Seq<SiteFace>,
    samples: Seq<SiteSample>,
    distance_fn: DistanceFn,
    reshape_fn: ReshapingFn,
) -> bool {
    &&& map.boundary == boundary
    &&& map.regions@.len() == faces.len()
    &&& forall|i: int|
        0 <= i < faces.len() ==> (#[trigger] map.regions@[i]).site == faces[i].site
            && map.regions@[i].vertices@ == face_vertices(faces[i].edges@)
            && map.regions@[i].color == site_color(
            distance_fn,
            reshape_fn,
            faces[i].site,
            samples[i],
        )
}

/// What a caller hands to [`new_map`]: well-formed faces, and one well-formed
/// sample for each.
pub open spec fn map_inputs_wf(faces: Seq<SiteFace>, samples: Seq<SiteSample>) -> bool {
    &&& faces_wf(faces)
    &&& samples.len() == faces.len()
    &&& forall|i: int| 0 <= i < samples.len() ==> (#[trigger] samples[i]).wf()
}

/// Tells whether every value of the sample lies from minus one to one.
pub fn check_sample(sample: &SiteSample) -> (result: bool)
    ensures
        result == sample.wf(),
{
    -ONE <= sample.elevation_noise && sample.elevation_noise <= ONE && -ONE
        <= sample.moisture_noise && sample.moisture_noise <= ONE && -ONE <= sample.cos_x
        && sample.cos_x <= ONE && -ONE <= sample.cos_y && sample.cos_y <= ONE
}

/// Tells whether faces and samples can be handed to [`new_map`].
pub fn check_map_inputs(faces: &Vec<SiteFace>, samples: &Vec<SiteSample>) -> (result: bool)
    ensures
        result == map_inputs_wf(faces@, samples@),
{
    if samples.len() != faces.len() || !check_faces(faces) {
        return false;
    }
    let mut i: usize = 0;
    while i < faces.len()
        invariant
            samples@.len() == faces@.len(),
            0 <= i <= faces@.len(),
            forall|k: int| 0 <= k < i ==> (#[trigger] samples@[k]).wf(),
        decreases faces@.len() - i,
    {
        if !check_sample(&samples[i]) {
            return false;
        }
        i = i + 1;
    }
    true
}

/// Builds the map of the faces of a triangulation and of the samples taken at
/// their sites.
pub fn new_map(
    boundary: Boundary,
    faces: &Vec<SiteFace>,
    samples: &Vec<SiteSample>,
    distance_fn: DistanceFn,
    reshape_fn: ReshapingFn,
) -> (result: WorldMap)
    requires
        map_inputs_wf(faces@, samples@),
    ensures
        is_map_of(result, boundary, faces@, samples@, distance_fn, reshape_fn),
{
    let mut map_regions: Vec<MapRegion> = Vec::new();
    let mut i: usize = 0;
    while i < faces.len()
        invariant
            map_inputs_wf(faces@, samples@),
            0 <= i <= faces@.len(),
            map_regions@.len() == i,
            forall|k: int|
                0 <= k < i ==> (#[trigger] map_regions@[k]).site == faces@[k].site
                    && map_regions@[k].vertices@ == face_vertices(faces@[k].edges@)
                    && map_regions@[k].color == site_color(
                    distance_fn,
                    reshape_fn,
                    faces@[k].site,
                    samples@[k],
                ),
        decreases faces@.len() - i,
    {
        let region = extract_region(&faces[i]);
        let elevation = site_elevation(distance_fn, reshape_fn, region.site, &samples[i]);
        let moisture = site_moisture(samples[i].moisture_noise);
        let color = get_biome_color(elevation, moisture);
        map_regions.push(MapRegion { site: region.site, vertices: region.vertices, color });
        i = i + 1;
    }
    WorldMap { boundary, regions: map_regions }
}

impl WorldMap {
    pub fn get_regions(&self) -> (result: &Vec<MapRegion>)
        ensures
            result == &self.regions,
    {
        &self.regions
    }

    pub fn get_boundary(&self) -> (result: &Boundary)
        ensures
            result == &self.boundary,
    {
        &self.boundary
    }

    /// Builds a new map for the boundary of this one, which stays as it is.
    pub fn regenerate(
        &self,
        faces: &Vec<SiteFace>,
        samples: &Vec<SiteSample>,
        distance_fn: DistanceFn,
        reshape_fn: ReshapingFn,
    ) -> (result: Self)
        requires
            map_inputs_wf(faces@, samples@),
        ensures
            is_map_of(result, self.boundary, faces@, samples@, distance_fn, reshape_fn),
    {
        new_map(self.boundary, faces, samples, distance_fn, reshape_fn)
    }
}

/// Two maps of the same faces, samples and functions have the same cells
/// with the same colours: nothing else enters a map.
pub proof fn lemma_map_determined(
    first: WorldMap,
    second: WorldMap,
    boundary: Boundary,
    faces: Seq<SiteFace>,
    samples: Seq<SiteSample>,
    distance_fn: DistanceFn,
    reshape_fn: ReshapingFn,
)
    requires
        is_map_of(first, boundary, faces, samples, distance_fn, reshape_fn),
        is_map_of(second, boundary, faces, samples, distance_fn, reshape_fn),
    ensures
        first.boundary == second.boundary,
        first.regions@.len() == second.regions@.len(),
        forall|i: int|
            0 <= i < first.regions@.len() ==> (#[trigger] first.regions@[i]).color
                == second.regions@[i].color && first.regions@[i].site == second.regions@[i].site
                && first.regions@[i].vertices@ == second.regions@[i].vertices@,
{
}

/// Four uniform draws from zero up to, but not including, one: two for each axis.
#[derive(Clone, Copy, Debug)]
pub struct JitterDraw {
    pub x1: i64,
    pub x2: i64,
    pub y1: i64,
    pub y2: i64,
}

impl JitterDraw {
    /// Every draw lies from zero up to, but not including, one.
    pub open spec fn wf(self) -> bool {
        0 <= self.x1 < ONE && 0 <= self.x2 < ONE && 0 <= self.y1 < ONE && 0 <= self.y2 < ONE
    }
}

/// The half extent of the grid of sites, in cells.
pub const HALF_GRID: i64 = 33;

/// How far a site may leave the corner of its cell along each axis: half a unit.
pub const JITTER: i64 = 500_000;

/// The site of the cell `(cx, cy)`: the corner of the cell, displaced along
/// each axis by `jitter` times the difference of two draws.
pub open spec fn jittered_point(cx: int, cy: int, jitter: int, draw: JitterDraw) -> Vec2 {
    Vec2 {
        x: (cx * ONE + mul_fixed(jitter, draw.x1 - draw.x2)) as i64,
        y: (cy * ONE + mul_fixed(jitter, draw.y1 - draw.y2)) as i64,
    }
}

/// The `k`-th site of a grid of half extent `half`, row by row: `x` runs
/// from `-half` up, and within one `x` so does `y`.
pub open spec fn grid_point(half: int, jitter: int, k: int, draw: JitterDraw) -> Vec2 {
    jittered_point(k / (2 * half) - half, k % (2 * half) - half, jitter, draw)
}

/// A jitter stays within its amplitude.
pub proof fn lemma_jitter_bound(jitter: int, a: int, b: int)
    requires
        0 <= jitter,
        0 <= a < ONE,
        0 <= b < ONE,
    ensures
        -jitter <= mul_fixed(jitter, a - b) <= jitter,
{
    lemma_mul_fixed_bound(jitter, a - b, jitter, 1_000_000, jitter);
}

/// One site for each cell of the grid, row by row, each displaced by its draw.
pub fn jittered_grid(half_grid: i64, jitter: i64, draws: &Vec<JitterDraw>) -> (result: Vec<Vec2>)
    requires
        1 <= half_grid <= 1_000_000,
        0 <= jitter <= ONE,
        draws@.len() == 4 * half_grid * half_grid,
        forall|k: int| 0 <= k < draws@.len() ==> (#[trigger] draws@[k]).wf(),
    ensures
        result@.len() == draws@.len(),
        forall|k: int|
            0 <= k < result@.len() ==> #[trigger] result@[k] == grid_point(
                half_grid as int,
                jitter as int,
                k,
                draws@[k],
            ),
        forall|k: int|
            0 <= k < result@.len() ==> {
                let cx = k / (2 * half_grid) - half_grid;
                let cy = k % (2 * half_grid) - half_grid;
                &&& -jitter <= (#[trigger] result@[k]).x - cx * ONE <= jitter
                &&& -jitter <= result@[k].y - cy * ONE <= jitter
                &&& result@[k].bounded()
            },
{
    let side: i64 = 2 * half_grid;
    let mut points: Vec<Vec2> = Vec::new();
    let mut x: i64 = 0;
    assert(0 * side == 0) by (nonlinear_arith);
    assert(side * side == 4 * half_grid * half_grid) by (nonlinear_arith)
        requires side == 2 * half_grid;
    while x < side
        invariant
            1 <= half_grid <= 1_000_000,
            0 <= jitter <= ONE,
            side == 2 * half_grid,
            draws@.len() == side * side,
            forall|k: int| 0 <= k < draws@.len() ==> (#[trigger] draws@[k]).wf(),
            0 <= x <= side,
            points@.len() == x * side,
            forall|k: int|
                0 <= k < points@.len() ==> #[trigger] points@[k] == grid_point(
                    half_grid as int,
                    jitter as int,
                    k,
                    draws@[k],
                ),
            forall|k: int|
                0 <= k < points@.len() ==> {
                    let cx = k / (2 * half_grid) - half_grid;
                    let cy = k % (2 * half_grid) - half_grid;
                    &&& -jitter <= (#[trigger] points@[k]).x - cx * ONE <= jitter
                    &&& -jitter <= points@[k].y - cy * ONE <= jitter
                    &&& points@[k].bounded()
                },
        decreases side - x,
    {
        let mut y: i64 = 0;
        while y < side
            invariant
                1 <= half_grid <= 1_000_000,
                0 <= jitter <= ONE,
                side == 2 * half_grid,
                draws@.len() == side * side,
                forall|k: int| 0 <= k < draws@.len() ==> (#[trigger] draws@[k]).wf(),
                0 <= x < side,
                0 <= y <= side,
                points@.len() == x * side + y,
                forall|k: int|
                    0 <= k < points@.len() ==> #[trigger] points@[k] == grid_point(
                        half_grid as int,
                        jitter as int,
                        k,
                        draws@[k],
                    ),
                forall|k: int|
                    0 <= k < points@.len() ==> {
                        let cx = k / (2 * half_grid) - half_grid;
                        let cy = k % (2 * half_grid) - half_grid;
                        &&& -jitter <= (#[trigger] points@[k]).x - cx * ONE <= jitter
                        &&& -jitter <= points@[k].y - cy * ONE <= jitter
                        &&& points@[k].bounded()
                    },
            decreases side - y,
        {
            let ghost k = x * side + y;
            proof {
                assert(x * side + y < side * side) by (nonlinear_arith)
                    requires 0 <= x < side, 0 <= y < side;
                lemma_fundamental_div_mod_converse(k, side as int, x as int, y as int);
            }
            let draw = draws[points.len()];
            proof {
                lemma_jitter_bound(jitter as int, draw.x1 as int, draw.x2 as int);
                lemma_jitter_bound(jitter as int, draw.y1 as int, draw.y2 as int);
            }
            let dx: i64 = fmul_unit(jitter, draw.x1 - draw.x2);
            let dy: i64 = fmul_unit(jitter, draw.y1 - draw.y2);
            let point = Vec2 { x: (x - half_grid) * ONE + dx, y: (y - half_grid) * ONE + dy };
            points.push(point);
            y = y + 1;
        }
        assert((x + 1) * side == x * side + side) by (nonlinear_arith);
        x = x + 1;
    }
    points
}

/// The draw that 32 uniform bits stand for: the upper 24 bits as a fraction
/// of `2^24`, rounded down to millionths.
pub open spec fn draw_of(bits: u32) -> int {
    ((bits as int / 256) * ONE) / 16_777_216
}

/// The draw that 32 uniform bits stand for: see [`draw_of`].
pub fn draw_from_bits(bits: u32) -> (result: i64)
    ensures
        result == draw_of(bits),
        0 <= result < ONE,
{
    let upper: i64 = (bits / 256) as i64;
    (upper * ONE) / 16_777_216
}

/// Calls `rand::random::<u32>()`, which takes the next 32 bits of the
/// thread-local generator of the `rand` crate. Nothing is claimed of the
/// number that comes back. The call fails only where the operating system
/// cannot seed that generator.
#[verifier::external_body]
fn random_bits() -> (result: u32) {
    rand::random::<u32>()
}

/// Four fresh draws: two for `x`, then two for `y`.
pub fn random_draw() -> (result: JitterDraw)
    ensures
        result.wf(),
{
    let x1 = draw_from_bits(random_bits());
    let x2 = draw_from_bits(random_bits());
    let y1 = draw_from_bits(random_bits());
    let y2 = draw_from_bits(random_bits());
    JitterDraw { x1, x2, y1, y2 }
}

/// The number of cells of the grid of sites.
pub const GRID_CELLS: usize = 4356;

/// `points` is the grid of half extent `HALF_GRID` and amplitude `JITTER`
/// that these draws give.
pub open spec fn is_grid_of(points: Seq<Vec2>, draws: Seq<JitterDraw>) -> bool {
    &&& draws.len() == points.len()
    &&& forall|k: int| 0 <= k < draws.len() ==> (#[trigger] draws[k]).wf()
    &&& forall|k: int|
        0 <= k < points.len() ==> #[trigger] points[k] == grid_point(
            HALF_GRID as int,
            JITTER as int,
            k,
            draws[k],
        )
}

/// The sites of a fresh jittered grid of half extent `HALF_GRID` and
/// amplitude `JITTER`: one site for each cell, row by row, each within the
/// amplitude of the corner of its cell along both axes. Which sites come back
/// depends on the draws, so two calls may differ.
pub fn generate_random_points() -> (result: Vec<Vec2>)
    ensures
        result@.len() == GRID_CELLS,
        exists|draws: Seq<JitterDraw>| is_grid_of(result@, draws),
        forall|k: int|
            0 <= k < result@.len() ==> {
                let cx = k / (2 * HALF_GRID) - HALF_GRID;
                let cy = k % (2 * HALF_GRID) - HALF_GRID;
                &&& -JITTER <= (#[trigger] result@[k]).x - cx * ONE <= JITTER
                &&& -JITTER <= result@[k].y - cy * ONE <= JITTER
                &&& result@[k].bounded()
            },
{
    let mut draws: Vec<JitterDraw> = Vec::new();
    let mut k: usize = 0;
    while k < GRID_CELLS
        invariant
            0 <= k <= GRID_CELLS,
            draws@.len() == k,
            forall|j: int| 0 <= j < draws@.len() ==> (#[trigger] draws@[j]).wf(),
        decreases GRID_CELLS - k,
    {
        let draw = random_draw();
        draws.push(draw);
        k = k + 1;
    }
    let points = jittered_grid(HALF_GRID, JITTER, &draws);
    assert(is_grid_of(points@, draws@));
    points
}

} // verus!
