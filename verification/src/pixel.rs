use vstd::prelude::*;

verus! {

use crate::nums::clamp8;

/// One image pixel: four 8-bit channels (red, green, blue, alpha),
/// each in [0, 255] by construction.
#[derive(Copy, Clone, PartialEq, Eq, Structural, Debug)]
pub struct Rgba {
    pub r: u8,
    pub g: u8,
    pub b: u8,
    pub a: u8,
}

impl Rgba {
    pub fn new(r: u8, g: u8, b: u8, a: u8) -> (p: Rgba)
        ensures
            p == (Rgba { r, g, b, a }),
    {
        Rgba { r, g, b, a }
    }
}

/// A pixel of three 8-bit channels (red, green, blue), used by the
/// channel-vector helpers that work without an alpha channel.
#[derive(Copy, Clone, PartialEq, Eq, Structural, Debug)]
pub struct Rgb {
    pub r: u8,
    pub g: u8,
    pub b: u8,
}

impl Rgb {
    pub fn new(r: u8, g: u8, b: u8) -> (p: Rgb)
        ensures
            p == (Rgb { r, g, b }),
    {
        Rgb { r, g, b }
    }
}

/// Add a signed delta to one channel, clamping the sum into [0, 255].
pub fn clamp_add(c: u8, d: i32) -> (r: u8)
    ensures
        r as int == clamp8(c as int + d as int),
{
    let s: i64 = c as i64 + d as i64;
    if s < 0 {
        0
    } else if s > 255 {
        255
    } else {
        s as u8
    }
}

} // verus!
