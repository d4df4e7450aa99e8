use vstd::prelude::*;

verus! {

use crate::nums::{div_trunc, rem_trunc, trunc_div, trunc_mod};
use crate::pixel::{Rgb, Rgba};

/// Divide every element of `v` by `n`, truncating toward zero as Rust's
/// `/` does. The excluded inputs are exactly those on which `/` panics.
pub fn divide_vec(v: Vec<i32>, n: i32) -> (r: Vec<i32>)
    requires
        n != 0,
        forall|i: int| 0 <= i < v@.len() ==> !(v@[i] == i32::MIN && n == -1),
    ensures
        r@.len() == v@.len(),
        forall|i: int| 0 <= i < v@.len() ==> r@[i] == trunc_div(v@[i] as int, n as int),
{
    let mut r: Vec<i32> = Vec::new();
    let mut i: usize = 0;
    while i < v.len()
        invariant
            i <= v@.len(),
            n != 0,
            forall|j: int| 0 <= j < v@.len() ==> !(v@[j] == i32::MIN && n == -1),
            r@.len() == i,
            forall|j: int| 0 <= j < i ==> r@[j] == trunc_div(v@[j] as int, n as int),
        decreases v@.len() - i,
    {
        r.push(div_trunc(v[i], n));
        i = i + 1;
    }
    r
}

/// Take every element of `v` modulo `n`, with Rust's `%` semantics (the
/// remainder carries the sign of the dividend).
pub fn mod_vec(v: Vec<i32>, n: i32) -> (r: Vec<i32>)
    requires
        n != 0,
        forall|i: int| 0 <= i < v@.len() ==> !(v@[i] == i32::MIN && n == -1),
    ensures
        r@.len() == v@.len(),
        forall|i: int| 0 <= i < v@.len() ==> r@[i] == trunc_mod(v@[i] as int, n as int),
{
    let mut r: Vec<i32> = Vec::new();
    let mut i: usize = 0;
    while i < v.len()
        invariant
            i <= v@.len(),
            n != 0,
            forall|j: int| 0 <= j < v@.len() ==> !(v@[j] == i32::MIN && n == -1),
            r@.len() == i,
            forall|j: int| 0 <= j < i ==> r@[j] == trunc_mod(v@[j] as int, n as int),
        decreases v@.len() - i,
    {
        r.push(rem_trunc(v[i], n));
        i = i + 1;
    }
    r
}

/// Add two vectors element by element; like a zip, the result is as long as
/// the shorter input. Every pairwise sum must fit in an `i32`.
pub fn add_vecs(a: Vec<i32>, b: Vec<i32>) -> (r: Vec<i32>)
    requires
        forall|i: int|
            0 <= i < a@.len() && i < b@.len() ==> i32::MIN <= #[trigger] a@[i] + b@[i] <= i32::MAX,
    ensures
        r@.len() == vstd::math::min(a@.len() as int, b@.len() as int),
        forall|i: int| 0 <= i < r@.len() ==> r@[i] == a@[i] + b@[i],
{
    let len = if a.len() < b.len() {
        a.len()
    } else {
        b.len()
    };
    let mut r: Vec<i32> = Vec::new();
    let mut i: usize = 0;
    while i < len
        invariant
            i <= len,
            len == vstd::math::min(a@.len() as int, b@.len() as int),
            forall|j: int|
                0 <= j < a@.len() && j < b@.len() ==> i32::MIN <= #[trigger] a@[j] + b@[j] <= i32::MAX,
            r@.len() == i,
            forall|j: int| 0 <= j < i ==> r@[j] == a@[j] + b@[j],
        decreases len - i,
    {
        r.push(a[i] + b[i]);
        i = i + 1;
    }
    r
}

/// Subtract `b` from `a` element by element; the result is as long as the
/// shorter input. Every pairwise difference must fit in an `i32`.
pub fn sub_vecs(a: Vec<i32>, b: Vec<i32>) -> (r: Vec<i32>)
    requires
        forall|i: int|
            0 <= i < a@.len() && i < b@.len() ==> i32::MIN <= #[trigger] a@[i] - b@[i] <= i32::MAX,
    ensures
        r@.len() == vstd::math::min(a@.len() as int, b@.len() as int),
        forall|i: int| 0 <= i < r@.len() ==> r@[i] == a@[i] - b@[i],
{
    let len = if a.len() < b.len() {
        a.len()
    } else {
        b.len()
    };
    let mut r: Vec<i32> = Vec::new();
    let mut i: usize = 0;
    while i < len
        invariant
            i <= len,
            len == vstd::math::min(a@.len() as int, b@.len() as int),
            forall|j: int|
                0 <= j < a@.len() && j < b@.len() ==> i32::MIN <= #[trigger] a@[j] - b@[j] <= i32::MAX,
            r@.len() == i,
            forall|j: int| 0 <= j < i ==> r@[j] == a@[j] - b@[j],
        decreases len - i,
    {
        r.push(a[i] - b[i]);
        i = i + 1;
    }
    r
}

/// The four channels of a pixel, widened to signed integers.
pub fn pixel_to_vec(pixel: Rgba) -> (v: Vec<i32>)
    ensures
        v@ =~= seq![pixel.r as i32, pixel.g as i32, pixel.b as i32, pixel.a as i32],
{
    let mut v: Vec<i32> = Vec::new();
    v.push(pixel.r as i32);
    v.push(pixel.g as i32);
    v.push(pixel.b as i32);
    v.push(pixel.a as i32);
    v
}

/// The channel-wise difference `a - b` of two three-channel pixels.
pub fn substract_pixels_to_vec(a: Rgb, b: Rgb) -> (v: Vec<i32>)
    ensures
        v@ =~= seq![
            (a.r - b.r) as i32,
            (a.g - b.g) as i32,
            (a.b - b.b) as i32,
        ],
{
    let mut va: Vec<i32> = Vec::new();
    va.push(a.r as i32);
    va.push(a.g as i32);
    va.push(a.b as i32);
    let mut vb: Vec<i32> = Vec::new();
    vb.push(b.r as i32);
    vb.push(b.g as i32);
    vb.push(b.b as i32);
    sub_vecs(va, vb)
}

/// Each channel of `p` divided by `n`, truncating toward zero.
pub fn divide_pixel(p: Rgb, n: u8) -> (v: Vec<i32>)
    requires
        n != 0,
    ensures
        v@ =~= seq![
            trunc_div(p.r as int, n as int) as i32,
            trunc_div(p.g as int, n as int) as i32,
            trunc_div(p.b as int, n as int) as i32,
        ],
{
    let mut vp: Vec<i32> = Vec::new();
    vp.push(p.r as i32);
    vp.push(p.g as i32);
    vp.push(p.b as i32);
    let r = divide_vec(vp, n as i32);
    proof {
        crate::nums::lemma_trunc_div_bounded(p.r as int, n as int);
        crate::nums::lemma_trunc_div_bounded(p.g as int, n as int);
        crate::nums::lemma_trunc_div_bounded(p.b as int, n as int);
    }
    r
}

/// Each channel of `p` modulo `n`.
pub fn mod_pixel(p: Rgb, n: u8) -> (v: Vec<i32>)
    requires
        n != 0,
    ensures
        v@ =~= seq![
            trunc_mod(p.r as int, n as int) as i32,
            trunc_mod(p.g as int, n as int) as i32,
            trunc_mod(p.b as int, n as int) as i32,
        ],
{
    let mut vp: Vec<i32> = Vec::new();
    vp.push(p.r as i32);
    vp.push(p.g as i32);
    vp.push(p.b as i32);
    let r = mod_vec(vp, n as i32);
    proof {
        crate::nums::lemma_trunc_mod_bounded(p.r as int, n as int);
        crate::nums::lemma_trunc_mod_bounded(p.g as int, n as int);
        crate::nums::lemma_trunc_mod_bounded(p.b as int, n as int);
    }
    r
}

} // verus!
