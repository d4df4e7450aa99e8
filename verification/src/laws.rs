use vstd::prelude::*;

verus! {

use crate::frame::{apply_seq, lemma_apply_seq_step};
use crate::nums::{clamp8, trunc_div, trunc_mod};
use crate::pixel::Rgba;
use crate::recipe::{last_step_delta, recipe_deltas, step_delta, RemainderPolicy};

/// Scaling the truncated quotient back up never overshoots the dividend:
/// `n * trunc_div(c, n)` lies between 0 and `c`, and the remainder accounts
/// for the difference.
proof fn lemma_trunc_div_scaled(c: int, n: int)
    requires
        n > 0,
    ensures
        c >= 0 ==> 0 <= n * trunc_div(c, n) <= c,
        c <= 0 ==> c <= n * trunc_div(c, n) <= 0,
        c == n * trunc_div(c, n) + trunc_mod(c, n),
{
    crate::nums::lemma_trunc_div_bounded(c, n);
    crate::nums::lemma_trunc_mod_bounded(c, n);
    let q = trunc_div(c, n);
    if c >= 0 {
        assert(n * q >= 0) by (nonlinear_arith)
            requires
                n > 0,
                q >= 0,
        ;
    } else {
        assert(n * q <= 0) by (nonlinear_arith)
            requires
                n > 0,
                q <= 0,
        ;
    }
}

/// Partial sums of a constant increment stay between the start and the end:
/// `k * q` lies between 0 and `n * q` for `0 <= k <= n`.
proof fn lemma_partial_scale(q: int, k: int, n: int)
    requires
        0 <= k <= n,
    ensures
        q >= 0 ==> 0 <= k * q <= n * q,
        q <= 0 ==> n * q <= k * q <= 0,
{
    if q >= 0 {
        assert(0 <= k * q <= n * q) by (nonlinear_arith)
            requires
                0 <= k <= n,
                q >= 0,
        ;
    } else {
        assert(n * q <= k * q <= 0) by (nonlinear_arith)
            requires
                0 <= k <= n,
                q <= 0,
        ;
    }
}

/// One more constant increment on a channel that has taken `k - 1` of them:
/// the sum stays between the source and the target value, so the clamp is
/// the identity and the channel lands exactly on `a + k * q`.
proof fn lemma_channel_step(a: int, c: int, n: int, k: int)
    requires
        0 <= a <= 255,
        0 <= a + c <= 255,
        n > 0,
        1 <= k <= n,
    ensures
        clamp8(a + (k - 1) * trunc_div(c, n) + trunc_div(c, n)) == a + k * trunc_div(c, n),
        0 <= a + k * trunc_div(c, n) <= 255,
{
    let q = trunc_div(c, n);
    lemma_trunc_div_scaled(c, n);
    lemma_partial_scale(q, k, n);
    assert(k * q == (k - 1) * q + q) by (nonlinear_arith);
}

/// The closing increment under `RemainderPolicy::DistributeLast` lands the
/// channel exactly on the target value `a + c`.
proof fn lemma_channel_last(a: int, c: int, n: int)
    requires
        0 <= a <= 255,
        0 <= a + c <= 255,
        n > 0,
    ensures
        clamp8(a + (n - 1) * trunc_div(c, n) + (trunc_div(c, n) + trunc_mod(c, n))) == a + c,
{
    let q = trunc_div(c, n);
    lemma_trunc_div_scaled(c, n);
    assert((n - 1) * q + (q + trunc_mod(c, n)) == n * q + trunc_mod(c, n)) by (nonlinear_arith);
}

/// After `k` of the `n` constant increments, each channel stands exactly at
/// `start + k * increment`: the clamping never cuts in, because every
/// intermediate value lies between the source and the target channel.
pub proof fn lemma_constant_prefix(source: Rgba, target: Rgba, n: int, k: int)
    requires
        n > 0,
        0 <= k <= n,
    ensures
        ({
            let q = step_delta(target, source, n);
            let p = apply_seq(
                source,
                recipe_deltas(target, source, n, RemainderPolicy::Truncate).take(k),
            );
            &&& p.r == source.r + k * (q.0 as int)
            &&& p.g == source.g + k * (q.1 as int)
            &&& p.b == source.b + k * (q.2 as int)
            &&& p.a == source.a + k * (q.3 as int)
            &&& 0 <= source.r + k * (q.0 as int) <= 255
            &&& 0 <= source.g + k * (q.1 as int) <= 255
            &&& 0 <= source.b + k * (q.2 as int) <= 255
            &&& 0 <= source.a + k * (q.3 as int) <= 255
        }),
    decreases k,
{
    let q = step_delta(target, source, n);
    let ds = recipe_deltas(target, source, n, RemainderPolicy::Truncate);
    crate::recipe::lemma_step_delta_small(n);
    if k == 0 {
        assert(ds.take(0) =~= Seq::<crate::diff::RgbaDiff>::empty());
        assert(0 * (q.0 as int) == 0) by (nonlinear_arith);
        assert(0 * (q.1 as int) == 0) by (nonlinear_arith);
        assert(0 * (q.2 as int) == 0) by (nonlinear_arith);
        assert(0 * (q.3 as int) == 0) by (nonlinear_arith);
    } else {
        lemma_constant_prefix(source, target, n, k - 1);
        lemma_apply_seq_step(source, ds, k - 1);
        assert(ds[k - 1] == q);
        lemma_channel_step(source.r as int, target.r - source.r, n, k);
        lemma_channel_step(source.g as int, target.g - source.g, n, k);
        lemma_channel_step(source.b as int, target.b - source.b, n, k);
        lemma_channel_step(source.a as int, target.a - source.a, n, k);
    }
}

/// The constant-increment law: for channels `a` (source) and `b` (target)
/// and `n > 0` steps, the per-step increment is the truncating quotient
/// `(b - a) / n`; applying it `n` times lands on `a + n * ((b - a) / n)`,
/// which misses `b` by exactly the division remainder — a drift of at most
/// `n - 1` in magnitude. The drift is real and is stated, not hidden.
pub proof fn lemma_constant_increment_drift(source: Rgba, target: Rgba, n: int)
    requires
        n > 0,
    ensures
        ({
            let full = apply_seq(
                source,
                recipe_deltas(target, source, n, RemainderPolicy::Truncate),
            );
            &&& full.r == source.r + n * trunc_div(target.r - source.r, n)
            &&& full.g == source.g + n * trunc_div(target.g - source.g, n)
            &&& full.b == source.b + n * trunc_div(target.b - source.b, n)
            &&& full.a == source.a + n * trunc_div(target.a - source.a, n)
            &&& target.r - full.r == trunc_mod(target.r - source.r, n)
            &&& target.g - full.g == trunc_mod(target.g - source.g, n)
            &&& target.b - full.b == trunc_mod(target.b - source.b, n)
            &&& target.a - full.a == trunc_mod(target.a - source.a, n)
            &&& vstd::math::abs(target.r - full.r) <= n - 1
            &&& vstd::math::abs(target.g - full.g) <= n - 1
            &&& vstd::math::abs(target.b - full.b) <= n - 1
            &&& vstd::math::abs(target.a - full.a) <= n - 1
        }),
{
    let ds = recipe_deltas(target, source, n, RemainderPolicy::Truncate);
    assert(ds.take(n) =~= ds);
    lemma_constant_prefix(source, target, n, n);
    crate::recipe::lemma_step_delta_small(n);
    lemma_trunc_div_scaled(target.r - source.r, n);
    lemma_trunc_div_scaled(target.g - source.g, n);
    lemma_trunc_div_scaled(target.b - source.b, n);
    lemma_trunc_div_scaled(target.a - source.a, n);
    crate::nums::lemma_trunc_mod_bounded(target.r - source.r, n);
    crate::nums::lemma_trunc_mod_bounded(target.g - source.g, n);
    crate::nums::lemma_trunc_mod_bounded(target.b - source.b, n);
    crate::nums::lemma_trunc_mod_bounded(target.a - source.a, n);
}

/// Under `RemainderPolicy::DistributeLast` the final increment also carries
/// the division remainder, so the fully stepped pixel is exactly the target:
/// no drift remains.
pub proof fn lemma_distribute_last_exact(source: Rgba, target: Rgba, n: int)
    requires
        n > 0,
    ensures
        apply_seq(source, recipe_deltas(target, source, n, RemainderPolicy::DistributeLast))
            == target,
{
    let ds = recipe_deltas(target, source, n, RemainderPolicy::DistributeLast);
    let dst = recipe_deltas(target, source, n, RemainderPolicy::Truncate);
    assert(ds.take(n - 1) =~= dst.take(n - 1));
    lemma_constant_prefix(source, target, n, n - 1);
    assert(ds.take(n) =~= ds);
    lemma_apply_seq_step(source, ds, n - 1);
    assert(ds[n - 1] == last_step_delta(target, source, n));
    crate::recipe::lemma_step_delta_small(n);
    lemma_channel_last(source.r as int, target.r - source.r, n);
    lemma_channel_last(source.g as int, target.g - source.g, n);
    lemma_channel_last(source.b as int, target.b - source.b, n);
    lemma_channel_last(source.a as int, target.a - source.a, n);
}

} // verus!
