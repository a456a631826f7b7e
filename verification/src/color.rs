//! The shared pixel representation: a four-channel colour with linear
//! interpolation and channel scaling.

use vstd::prelude::*;

verus! {

/// One pixel, in the strip's native channel order.  The strip reads the
/// channels as blue/red/green plus a fourth padding channel, so `c0..c3`
/// carry no colour names of their own.
#[derive(Clone, Copy, PartialEq, Eq, Structural, Debug)]
pub struct Color {
    pub c0: u8,
    pub c1: u8,
    pub c2: u8,
    pub c3: u8,
}

impl Color {
    /// The all-zero (black, unlit) pixel.
    pub open spec fn spec_black() -> Color {
        Color { c0: 0, c1: 0, c2: 0, c3: 0 }
    }

    pub fn black() -> (c: Color)
        ensures
            c == Color::spec_black(),
    {
        Color { c0: 0, c1: 0, c2: 0, c3: 0 }
    }

    /// True when every channel is zero, i.e. the pixel carries no light.
    pub open spec fn is_black(self) -> bool {
        self.c0 == 0 && self.c1 == 0 && self.c2 == 0 && self.c3 == 0
    }
}

/// Channel-wise linear interpolation at `step / steps` of the way from
/// `a` to `b`, rounded to the nearest integer (halves round up).
/// This is `round(a + (b - a) * step / steps)` written over integers:
/// the numerator `a * (steps - step) + b * step` equals
/// `(a + (b - a) * step / steps) * steps`.
pub open spec fn lerp_channel_spec(a: u8, b: u8, step: int, steps: int) -> int
    recommends
        0 <= step < steps,
{
    (2 * (a * (steps - step) + b * step) + steps) / (2 * steps)
}

/// The interpolated value always stays within the channel's range.
pub proof fn lemma_lerp_channel_bounds(a: u8, b: u8, step: int, steps: int)
    requires
        0 <= step < steps,
    ensures
        0 <= lerp_channel_spec(a, b, step, steps) <= 255,
{
    assert(0 <= a * (steps - step) + b * step <= 255 * steps) by (nonlinear_arith)
        requires
            0 <= step < steps,
            a <= 255,
            b <= 255,
    ;
    assert(0 <= (2 * (a * (steps - step) + b * step) + steps) / (2 * steps) <= 255)
        by (nonlinear_arith)
        requires
            0 < steps,
            0 <= a * (steps - step) + b * step <= 255 * steps,
    ;
}

/// Interpolating at the start of a segment gives the start colour back.
pub proof fn lemma_lerp_channel_at_start(a: u8, b: u8, steps: int)
    requires
        0 < steps,
    ensures
        lerp_channel_spec(a, b, 0, steps) == a,
{
    assert((2 * (a * steps) + steps) / (2 * steps) == a) by (nonlinear_arith)
        requires
            0 < steps,
            a <= 255,
    ;
}

pub fn lerp_channel(a: u8, b: u8, step: u64, steps: u64) -> (r: u8)
    requires
        step < steps,
    ensures
        r as int == lerp_channel_spec(a, b, step as int, steps as int),
{
    proof {
        lemma_lerp_channel_bounds(a, b, step as int, steps as int);
        assert((a as int) * ((steps - step) as int) <= 255 * (steps as int)
            && (b as int) * (step as int) <= 255 * (steps as int)
            && 0 <= (a as int) * ((steps - step) as int)
            && 0 <= (b as int) * (step as int)) by (nonlinear_arith)
            requires
                a <= 255,
                b <= 255,
                0 <= (step as int),
                (step as int) < (steps as int),
        ;
        assert(255 * (steps as int) <= 0xff00000000000000000) by (nonlinear_arith)
            requires
                (steps as int) <= 0xffffffffffffffff,
        ;
    }
    let num: u128 = (a as u128) * ((steps - step) as u128) + (b as u128) * (step as u128);
    let r: u128 = (2 * num + steps as u128) / (2 * steps as u128);
    r as u8
}

/// Channel-wise interpolation of a whole pixel.
pub open spec fn lerp_color_spec(a: Color, b: Color, step: int, steps: int) -> Color
    recommends
        0 <= step < steps,
{
    Color {
        c0: lerp_channel_spec(a.c0, b.c0, step, steps) as u8,
        c1: lerp_channel_spec(a.c1, b.c1, step, steps) as u8,
        c2: lerp_channel_spec(a.c2, b.c2, step, steps) as u8,
        c3: lerp_channel_spec(a.c3, b.c3, step, steps) as u8,
    }
}

pub fn lerp_color(a: Color, b: Color, step: u64, steps: u64) -> (r: Color)
    requires
        step < steps,
    ensures
        r == lerp_color_spec(a, b, step as int, steps as int),
{
    proof {
        lemma_lerp_channel_bounds(a.c0, b.c0, step as int, steps as int);
        lemma_lerp_channel_bounds(a.c1, b.c1, step as int, steps as int);
        lemma_lerp_channel_bounds(a.c2, b.c2, step as int, steps as int);
        lemma_lerp_channel_bounds(a.c3, b.c3, step as int, steps as int);
    }
    Color {
        c0: lerp_channel(a.c0, b.c0, step, steps),
        c1: lerp_channel(a.c1, b.c1, step, steps),
        c2: lerp_channel(a.c2, b.c2, step, steps),
        c3: lerp_channel(a.c3, b.c3, step, steps),
    }
}

/// One channel dimmed to `heat / 255` of its value, truncated downward.
pub open spec fn scale_channel_spec(x: u8, heat: u8) -> int {
    (x * heat) / 255
}

pub proof fn lemma_scale_channel_bounds(x: u8, heat: u8)
    ensures
        0 <= scale_channel_spec(x, heat) <= 255,
{
    assert(0 <= (x * heat) / 255 <= 255) by (nonlinear_arith)
        requires
            x <= 255,
            heat <= 255,
    ;
}

pub fn scale_channel(x: u8, heat: u8) -> (r: u8)
    ensures
        r as int == scale_channel_spec(x, heat),
{
    proof {
        lemma_scale_channel_bounds(x, heat);
    }
    (((x as u32) * (heat as u32)) / 255) as u8
}

/// A pixel dimmed to `heat / 255` of its brightness.
pub open spec fn scale_color_spec(c: Color, heat: u8) -> Color {
    Color {
        c0: scale_channel_spec(c.c0, heat) as u8,
        c1: scale_channel_spec(c.c1, heat) as u8,
        c2: scale_channel_spec(c.c2, heat) as u8,
        c3: scale_channel_spec(c.c3, heat) as u8,
    }
}

pub fn scale_color(c: Color, heat: u8) -> (r: Color)
    ensures
        r == scale_color_spec(c, heat),
{
    Color {
        c0: scale_channel(c.c0, heat),
        c1: scale_channel(c.c1, heat),
        c2: scale_channel(c.c2, heat),
        c3: scale_channel(c.c3, heat),
    }
}

} // verus!
