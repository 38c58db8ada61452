//! Colour arithmetic shared by the animations: the colour wheel that maps a
//! cyclic 8-bit phase to an RGB value, and brightness scaling of a pixel by a
//! clamped fixed-point factor.

use vstd::prelude::*;
use vstd::arithmetic::div_mod::{lemma_div_multiples_vanish, lemma_div_multiples_vanish_fancy};
use vstd::arithmetic::div_mod::lemma_div_of0;
use vstd::arithmetic::div_mod::lemma_fundamental_div_mod;

verus! {

/// One pixel: three 8-bit colour channels, no alpha.
#[derive(Clone, Copy, PartialEq, Eq, Structural, Debug)]
pub struct Pixel {
    pub r: u8,
    pub g: u8,
    pub b: u8,
}

/// Brightness factors are fixed-point numerators over 256: this one is 1.0,
/// which leaves every channel unchanged.
pub const SCALE_ONE: i32 = 256;

/// The factor 0.5: each channel is halved, truncating.
pub const SCALE_HALF: i32 = 128;

/// An unlit pixel.
pub open spec fn black() -> Pixel {
    Pixel { r: 0, g: 0, b: 0 }
}

/// The colour wheel: the inverted position is split into three 85-wide bands,
/// each ramping one channel down while ramping another up, so that positions
/// 0..=255 run red -> green -> blue -> back to red.
pub open spec fn wheel_spec(pos: u8) -> Pixel {
    let inv = 255 - pos;
    if inv < 85 {
        Pixel { r: (255 - inv * 3) as u8, g: 0, b: (inv * 3) as u8 }
    } else if inv < 170 {
        Pixel { r: 0, g: ((inv - 85) * 3) as u8, b: (255 - (inv - 85) * 3) as u8 }
    } else {
        Pixel { r: ((inv - 170) * 3) as u8, g: (255 - (inv - 170) * 3) as u8, b: 0 }
    }
}

/// Maps a value 0..=255 to a colour of the wheel.
pub fn colour_wheel(wheel_pos: u8) -> (c: Pixel)
    ensures
        c == wheel_spec(wheel_pos),
{
    let inv: u8 = 255 - wheel_pos;
    if inv < 85 {
        Pixel { r: 255 - inv * 3, g: 0, b: inv * 3 }
    } else if inv < 170 {
        let band: u8 = inv - 85;
        Pixel { r: 0, g: band * 3, b: 255 - band * 3 }
    } else {
        let band: u8 = inv - 170;
        Pixel { r: band * 3, g: 255 - band * 3, b: 0 }
    }
}

/// A brightness factor clamped into [0, 256]: factors outside the unit range
/// act as the nearest bound, they are never an error.
pub open spec fn clamp_scale(scale: int) -> int {
    if scale < 0 {
        0
    } else if scale > 256 {
        256
    } else {
        scale
    }
}

/// One channel scaled by a clamped factor, truncating to an integer.
pub open spec fn scale_channel(v: u8, scale: int) -> u8 {
    ((v * clamp_scale(scale)) / 256) as u8
}

/// A whole pixel scaled channel by channel.
pub open spec fn scale_pixel(c: Pixel, scale: int) -> Pixel {
    Pixel {
        r: scale_channel(c.r, scale),
        g: scale_channel(c.g, scale),
        b: scale_channel(c.b, scale),
    }
}

fn scale_u8(v: u8, s: u32) -> (w: u8)
    requires
        s <= 256,
    ensures
        w == ((v * s) / 256) as u8,
{
    proof {
        assert(v as int * s as int <= 255 * 256) by (nonlinear_arith)
            requires
                v as int <= 255,
                s as int <= 256,
        ;
    }
    ((v as u32 * s) / 256) as u8
}

/// Scales a pixel by a brightness factor in 256ths; factors outside [0, 256]
/// are clamped to the range, not rejected.
pub fn set_brightness(c: Pixel, scale: i32) -> (d: Pixel)
    ensures
        d == scale_pixel(c, scale as int),
{
    let s: u32 = if scale < 0 {
        0
    } else if scale > 256 {
        256
    } else {
        scale as u32
    };
    Pixel { r: scale_u8(c.r, s), g: scale_u8(c.g, s), b: scale_u8(c.b, s) }
}

/// In every band of the wheel one channel is dark and the other two split a
/// full intensity of 255 between them, so the total intensity is constant
/// around the whole cycle.
pub proof fn lemma_wheel_channels(pos: u8)
    ensures
        wheel_spec(pos).r + wheel_spec(pos).g + wheel_spec(pos).b == 255,
        wheel_spec(pos).r == 0 || wheel_spec(pos).g == 0 || wheel_spec(pos).b == 0,
{
}

/// The wheel closes: its two endpoint positions give the same colour.
pub proof fn lemma_wheel_cycle_closure()
    ensures
        wheel_spec(0) == wheel_spec(255),
{
}

/// Brightness scaling at 1.0 is the identity, at 0.0 it darkens the pixel
/// completely, and factors outside [0, 256] behave as the nearest bound.
pub proof fn lemma_brightness_scaling(c: Pixel, scale: int)
    ensures
        scale_pixel(c, 256) == c,
        scale_pixel(c, 0) == black(),
        scale >= 256 ==> scale_pixel(c, scale) == scale_pixel(c, 256),
        scale <= 0 ==> scale_pixel(c, scale) == scale_pixel(c, 0),
{
    lemma_channel_identity(c.r);
    lemma_channel_identity(c.g);
    lemma_channel_identity(c.b);
    lemma_div_of0(256);
    assert(clamp_scale(0) == 0);
    assert(c.r as int * 0 == 0) by (nonlinear_arith);
    assert(c.g as int * 0 == 0) by (nonlinear_arith);
    assert(c.b as int * 0 == 0) by (nonlinear_arith);
}

proof fn lemma_channel_identity(v: u8)
    ensures
        scale_channel(v, 256) == v,
{
    lemma_div_multiples_vanish(v as int, 256);
    assert(v * 256 == 256 * v);
}

/// Scaling by one half is exactly a truncating halving of each channel.
pub proof fn lemma_half_scale(v: u8)
    ensures
        scale_channel(v, 128) == v / 2,
{
    lemma_fundamental_div_mod(v as int, 2);
    assert(v * 128 == 256 * (v as int / 2) + 128 * (v as int % 2));
    lemma_div_multiples_vanish_fancy(v as int / 2, 128 * (v as int % 2), 256);
}

} // verus!
