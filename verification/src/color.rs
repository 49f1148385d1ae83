//! Colours as fixed-point levels, preset colours and hue conversion.

use vstd::prelude::*;
use crate::fixed::{fmul_unit, lemma_mul_fixed_unit, mul_fixed, ONE};

verus! {

/// A named colour, or four channels from 0 to 255.
#[derive(Clone, PartialOrd, PartialEq, Debug, Copy)]
pub enum PresetColors {
    RED,
    BLUE,
    GREEN,
    MAGENTA,
    YELLOW,
    TEAL,
    WHITE,
    GREY,
    BLACK,
    TRANSPARENT,
    Other(u8, u8, u8, u8),
}

impl PresetColors {
    /// The red, green, blue and alpha channels of the colour.
    pub open spec fn channels(self) -> (u8, u8, u8, u8) {
        match self {
            PresetColors::RED => (255u8, 0u8, 0u8, 255u8),
            PresetColors::GREEN => (0u8, 255u8, 0u8, 255u8),
            PresetColors::BLUE => (0u8, 0u8, 255u8, 255u8),
            PresetColors::YELLOW => (255u8, 255u8, 0u8, 255u8),
            PresetColors::MAGENTA => (255u8, 0u8, 255u8, 255u8),
            PresetColors::TEAL => (0u8, 255u8, 255u8, 255u8),
            PresetColors::GREY => (128u8, 128u8, 128u8, 255u8),
            PresetColors::BLACK => (0u8, 0u8, 0u8, 255u8),
            PresetColors::WHITE => (255u8, 255u8, 255u8, 255u8),
            PresetColors::TRANSPARENT => (0u8, 0u8, 0u8, 0u8),
            PresetColors::Other(r, g, b, a) => (r, g, b, a),
        }
    }

    /// The red, green, blue and alpha channels of the colour.
    pub fn to_tuple(self) -> (result: (u8, u8, u8, u8))
        ensures
            result == self.channels(),
    {
        match self {
            PresetColors::RED => (255, 0, 0, 255),
            PresetColors::GREEN => (0, 255, 0, 255),
            PresetColors::BLUE => (0, 0, 255, 255),
            PresetColors::YELLOW => (255, 255, 0, 255),
            PresetColors::MAGENTA => (255, 0, 255, 255),
            PresetColors::TEAL => (0, 255, 255, 255),
            PresetColors::GREY => (128, 128, 128, 255),
            PresetColors::BLACK => (0, 0, 0, 255),
            PresetColors::WHITE => (255, 255, 255, 255),
            PresetColors::TRANSPARENT => (0, 0, 0, 0),
            PresetColors::Other(r, g, b, a) => (r, g, b, a),
        }
    }

    /// The colour as levels from zero to one, without its alpha channel.
    pub fn to_rgb(self) -> (result: RGB)
        ensures
            result.r == level(self.channels().0),
            result.g == level(self.channels().1),
            result.b == level(self.channels().2),
    {
        let c = self.to_tuple();
        RGB::new(c.0, c.1, c.2)
    }

    /// The colour as levels from zero to one.
    pub fn to_rgba(self) -> (result: RGBA)
        ensures
            result.r == level(self.channels().0),
            result.g == level(self.channels().1),
            result.b == level(self.channels().2),
            result.a == level(self.channels().3),
    {
        let c = self.to_tuple();
        RGBA::new(c.0, c.1, c.2, c.3)
    }
}

/// The level from zero to one of a channel from 0 to 255, rounded down.
pub open spec fn level(channel: u8) -> int {
    (channel * ONE) / 255
}

fn channel_level(channel: u8) -> (result: i64)
    ensures
        result == level(channel),
        0 <= result <= ONE,
{
    (channel as i64 * ONE) / 255
}

/// A colour as three levels, each a fixed-point number where `ONE` is full intensity.
#[derive(Clone, Copy, Debug, PartialEq, Eq, Structural)]
pub struct RGB {
    pub r: i64,
    pub g: i64,
    pub b: i64,
}

impl RGB {
    /// The colour of three channels from 0 to 255.
    pub fn new(r: u8, g: u8, b: u8) -> (result: Self)
        ensures
            result.r == level(r),
            result.g == level(g),
            result.b == level(b),
    {
        Self { r: channel_level(r), g: channel_level(g), b: channel_level(b) }
    }

    /// The colour of three levels.
    pub fn new_f32(r: i64, g: i64, b: i64) -> (result: Self)
        ensures
            result == (RGB { r, g, b }),
    {
        Self { r, g, b }
    }

    /// The three levels in the order red, green, blue.
    pub fn to_array(self) -> (result: [i64; 3])
        ensures
            result@ == seq![self.r, self.g, self.b],
    {
        [self.r, self.g, self.b]
    }
}

/// A colour as three levels and an opacity.
#[derive(Clone, Copy, Debug, PartialEq, Eq, Structural)]
pub struct RGBA {
    pub r: i64,
    pub g: i64,
    pub b: i64,
    pub a: i64,
}

impl RGBA {
    /// The colour of four channels from 0 to 255.
    pub fn new(r: u8, g: u8, b: u8, a: u8) -> (result: Self)
        ensures
            result.r == level(r),
            result.g == level(g),
            result.b == level(b),
            result.a == level(a),
    {
        Self { r: channel_level(r), g: channel_level(g), b: channel_level(b), a: channel_level(a) }
    }

    /// The colour of four levels.
    pub fn new_f32(r: i64, g: i64, b: i64, a: i64) -> (result: Self)
        ensures
            result == (RGBA { r, g, b, a }),
    {
        Self { r, g, b, a }
    }
}

/// A colour as a hue in degrees, a saturation and a lightness.
#[derive(Clone, Copy, Debug)]
pub struct HSL {
    pub h: i16,
    pub s: i64,
    pub l: i64,
}

/// The remainder of `a` by `b` that takes the sign of `a`.
pub open spec fn rem_trunc(a: int, b: int) -> int {
    if a >= 0 {
        a % b
    } else {
        -((-a) % b)
    }
}

/// The hue as a 16-bit signed number: hues from 32768 on wrap to negative ones.
pub open spec fn wrapped_hue(h: u16) -> int {
    if h < 32768 {
        h as int
    } else {
        h - 65536
    }
}

/// The chroma of a saturation and a lightness: `(1 - |2l - 1|) * s`.
pub open spec fn chroma(s: int, l: int) -> int {
    let d = 2 * l - ONE;
    mul_fixed(ONE - (if d < 0 { -d } else { d }), s)
}

/// The weight of the second largest component: `1 - |((h - 60) rem 2) - 1|`,
/// which is 1, 0 or -1.
pub open spec fn second_weight(h: int) -> int {
    let d = rem_trunc(h - 60, 2) - 1;
    1 - (if d < 0 { -d } else { d })
}

/// The colour of a hue: the chroma `c` and the second component `x`, placed
/// by the sixth of the colour wheel that `h rem 360` falls in.
pub open spec fn hue_color(h: int, c: int, x: int) -> RGB {
    let sector = rem_trunc(h, 360);
    if sector < 60 {
        RGB { r: c as i64, g: x as i64, b: 0 }
    } else if sector < 120 {
        RGB { r: x as i64, g: c as i64, b: 0 }
    } else if sector < 180 {
        RGB { r: 0, g: c as i64, b: x as i64 }
    } else if sector < 240 {
        RGB { r: 0, g: x as i64, b: c as i64 }
    } else if sector < 300 {
        RGB { r: x as i64, g: 0, b: c as i64 }
    } else {
        RGB { r: c as i64, g: 0, b: x as i64 }
    }
}

fn rem_trunc_exec(a: i32, b: i32) -> (result: i32)
    requires
        b > 0,
        a > i32::MIN,
    ensures
        result == rem_trunc(a as int, b as int),
        -b < result < b,
{
    if a >= 0 {
        a % b
    } else {
        -((-a) % b)
    }
}

impl HSL {
    /// The colour of a hue in degrees, a saturation and a lightness. The hue
    /// is kept as a 16-bit signed number.
    pub fn new(h: u16, s: i64, l: i64) -> (result: Self)
        ensures
            result.h == wrapped_hue(h),
            result.s == s,
            result.l == l,
    {
        let hue: i16 = if h < 32768 {
            h as i16
        } else {
            (h as i32 - 65536) as i16
        };
        Self { h: hue, s, l }
    }

    /// The colour as red, green and blue levels: see [`hue_color`].
    pub fn to_rgb(self) -> (result: RGB)
        requires
            self.h - 60 >= i16::MIN,
            0 <= self.s <= ONE,
            0 <= self.l <= ONE,
        ensures
            result == hue_color(
                self.h as int,
                chroma(self.s as int, self.l as int),
                chroma(self.s as int, self.l as int) * second_weight(self.h as int),
            ),
    {
        let d: i64 = 2 * self.l - ONE;
        let spread: i64 = ONE - (if d < 0 { -d } else { d });
        proof {
            lemma_mul_fixed_unit(spread as int, self.s as int);
        }
        let c: i64 = fmul_unit(spread, self.s);
        let k: i32 = rem_trunc_exec(self.h as i32 - 60, 2) - 1;
        let weight: i64 = 1 - (if k < 0 { -k } else { k }) as i64;
        assert(-1 <= weight <= 1);
        let x: i64 = if weight == 0 {
            0
        } else if weight == 1 {
            c
        } else {
            -c
        };
        assert(x == c * weight) by (nonlinear_arith)
            requires
                -1 <= weight <= 1,
                x == (if weight == 0 {
                    0
                } else if weight == 1 {
                    c as int
                } else {
                    -c
                }),
        ;
        let sector: i32 = rem_trunc_exec(self.h as i32, 360);
        if sector < 60 {
            RGB::new_f32(c, x, 0)
        } else if sector < 120 {
            RGB::new_f32(x, c, 0)
        } else if sector < 180 {
            RGB::new_f32(0, c, x)
        } else if sector < 240 {
            RGB::new_f32(0, x, c)
        } else if sector < 300 {
            RGB::new_f32(x, 0, c)
        } else {
            RGB::new_f32(c, 0, x)
        }
    }
}

} // verus!
