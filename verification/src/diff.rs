use vstd::prelude::*;

verus! {

use crate::nums::clamp8;
use crate::pixel::{clamp_add, Rgba};

/// An immutable per-channel delta: one signed increment for each of the
/// four channels (red, green, blue, alpha) of a pixel.
#[derive(Copy, Clone, PartialEq, Eq, Structural, Debug)]
pub struct RgbaDiff(pub i32, pub i32, pub i32, pub i32);

impl RgbaDiff {
    /// The pixel that results from adding this delta to `p`, channel by
    /// channel, with each sum clamped into [0, 255].
    pub open spec fn applied_to(self, p: Rgba) -> Rgba {
        Rgba {
            r: clamp8(p.r + self.0) as u8,
            g: clamp8(p.g + self.1) as u8,
            b: clamp8(p.b + self.2) as u8,
            a: clamp8(p.a + self.3) as u8,
        }
    }

    pub fn new(dr: i32, dg: i32, db: i32, da: i32) -> (d: RgbaDiff)
        ensures
            d == RgbaDiff(dr, dg, db, da),
    {
        RgbaDiff(dr, dg, db, da)
    }

    /// Build a delta whose four entries are a pixel's channel values.
    pub fn from_pixel(p: Rgba) -> (d: RgbaDiff)
        ensures
            d == RgbaDiff(p.r as i32, p.g as i32, p.b as i32, p.a as i32),
    {
        RgbaDiff(p.r as i32, p.g as i32, p.b as i32, p.a as i32)
    }

    pub fn from_vec(slice: [i32; 4]) -> (d: RgbaDiff)
        ensures
            d == RgbaDiff(slice[0], slice[1], slice[2], slice[3]),
    {
        RgbaDiff(slice[0], slice[1], slice[2], slice[3])
    }

    /// The four channel deltas, in (red, green, blue, alpha) order.
    pub fn channels(&self) -> (v: Vec<i32>)
        ensures
            v@ =~= seq![self.0, self.1, self.2, self.3],
    {
        let mut v: Vec<i32> = Vec::new();
        v.push(self.0);
        v.push(self.1);
        v.push(self.2);
        v.push(self.3);
        v
    }

    /// Nudge a pixel by this delta: each channel moves by its increment and
    /// is clamped into the valid 8-bit range.
    pub fn apply_to_pixel(&self, p: Rgba) -> (q: Rgba)
        ensures
            q == self.applied_to(p),
    {
        Rgba {
            r: clamp_add(p.r, self.0),
            g: clamp_add(p.g, self.1),
            b: clamp_add(p.b, self.2),
            a: clamp_add(p.a, self.3),
        }
    }
}

/// Applying the all-zero delta changes nothing: the identity law of
/// delta application.
pub proof fn lemma_zero_delta_is_identity(p: Rgba)
    ensures
        RgbaDiff(0, 0, 0, 0).applied_to(p) == p,
{
}

} // verus!
