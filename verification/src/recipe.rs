use vstd::prelude::*;

verus! {

use crate::diff::RgbaDiff;
use crate::nums::{trunc_div, trunc_mod};
use crate::pixel::Rgba;
use vstd::pervasive::VecAdditionalExecFns;

/// The error kinds of a morph run. Decoding and encoding failures arise at
/// the I/O boundary; the two others are raised by the core itself.
#[derive(Copy, Clone, PartialEq, Eq, Structural, Debug)]
pub enum MorphError {
    /// An input image could not be read or is not a supported format.
    DecodeError,
    /// Source and target dimensions still differ after resizing.
    DimensionMismatch,
    /// A recipe was requested with a step count of zero.
    InvalidRecipeRequest,
    /// An output frame could not be written.
    EncodeError,
}

/// How the rounding remainder of the truncating division is treated when a
/// recipe is built.
#[derive(Copy, Clone, PartialEq, Eq, Structural, Debug)]
pub enum RemainderPolicy {
    /// Every step gets the same truncated increment; the remainder is lost
    /// (the default: up to `steps - 1` units of drift per channel remain).
    Truncate,
    /// The last step additionally carries the whole remainder, so the
    /// stepped pixel lands exactly on the target.
    DistributeLast,
}

/// The constant per-step increment for one pixel: each channel of
/// `minuend - subtrahend`, divided by `steps` truncating toward zero.
pub open spec fn step_delta(minuend: Rgba, subtrahend: Rgba, steps: int) -> RgbaDiff {
    RgbaDiff(
        trunc_div(minuend.r - subtrahend.r, steps) as i32,
        trunc_div(minuend.g - subtrahend.g, steps) as i32,
        trunc_div(minuend.b - subtrahend.b, steps) as i32,
        trunc_div(minuend.a - subtrahend.a, steps) as i32,
    )
}

/// The increment of the final step under `RemainderPolicy::DistributeLast`:
/// the constant increment plus the remainder the truncating division left.
pub open spec fn last_step_delta(minuend: Rgba, subtrahend: Rgba, steps: int) -> RgbaDiff {
    RgbaDiff(
        (trunc_div(minuend.r - subtrahend.r, steps) + trunc_mod(
            minuend.r - subtrahend.r,
            steps,
        )) as i32,
        (trunc_div(minuend.g - subtrahend.g, steps) + trunc_mod(
            minuend.g - subtrahend.g,
            steps,
        )) as i32,
        (trunc_div(minuend.b - subtrahend.b, steps) + trunc_mod(
            minuend.b - subtrahend.b,
            steps,
        )) as i32,
        (trunc_div(minuend.a - subtrahend.a, steps) + trunc_mod(
            minuend.a - subtrahend.a,
            steps,
        )) as i32,
    )
}

/// The full sequence of `steps` increments that morphs `subtrahend` toward
/// `minuend` under the given remainder policy.
pub open spec fn recipe_deltas(
    minuend: Rgba,
    subtrahend: Rgba,
    steps: int,
    policy: RemainderPolicy,
) -> Seq<RgbaDiff> {
    Seq::new(
        steps as nat,
        |i: int|
            if policy is DistributeLast && i == steps - 1 {
                last_step_delta(minuend, subtrahend, steps)
            } else {
                step_delta(minuend, subtrahend, steps)
            },
    )
}

/// The ordered increments for one pixel position, consumed one per step
/// through a cursor that only moves forward.
pub struct Recipe {
    pub recipe: Vec<RgbaDiff>,
    pub step: usize,
}

impl Recipe {
    /// The increments this recipe was built with.
    pub open spec fn deltas(&self) -> Seq<RgbaDiff> {
        self.recipe@
    }

    /// How many increments have been handed out so far.
    pub open spec fn cursor(&self) -> int {
        self.step as int
    }

    /// An empty recipe: it starts exhausted.
    pub fn new() -> (r: Recipe)
        ensures
            r.deltas() =~= Seq::<RgbaDiff>::empty(),
            r.cursor() == 0,
    {
        Recipe { recipe: Vec::new(), step: 0 }
    }

    pub fn from_vec(v: Vec<RgbaDiff>) -> (r: Recipe)
        ensures
            r.deltas() == v@,
            r.cursor() == 0,
    {
        Recipe { recipe: v, step: 0 }
    }

    pub fn max_step(&self) -> (n: usize)
        ensures
            n == self.deltas().len(),
    {
        self.recipe.len()
    }

    /// Hand out the next increment and advance the cursor. While the cursor
    /// is short of the length this yields one delta per call, so a recipe of
    /// `s` increments yields exactly `s` results; once the cursor reaches
    /// the length the recipe is exhausted for good and every further call
    /// returns `None` and changes nothing.
    pub fn next(&mut self) -> (d: Option<RgbaDiff>)
        ensures
            old(self).cursor() < old(self).deltas().len() ==> {
                &&& d == Some(old(self).deltas()[old(self).cursor()])
                &&& final(self).cursor() == old(self).cursor() + 1
            },
            old(self).cursor() >= old(self).deltas().len() ==> {
                &&& d is None
                &&& final(self).cursor() == old(self).cursor()
            },
            final(self).deltas() == old(self).deltas(),
    {
        if self.step < self.recipe.len() {
            let ans = self.recipe[self.step];
            self.step = self.step + 1;
            Some(ans)
        } else {
            None
        }
    }
}

/// Collects a pixel pair and a step count, then builds the recipe that
/// morphs the subtrahend pixel toward the minuend pixel.
pub struct RecipeBuilder {
    pub minuend: Option<Rgba>,
    pub subtrahend: Option<Rgba>,
    pub steps: usize,
    pub policy: RemainderPolicy,
}

impl RecipeBuilder {
    /// All three ingredients a recipe needs have been supplied.
    pub open spec fn complete(&self) -> bool {
        &&& self.steps > 0
        &&& self.minuend is Some
        &&& self.subtrahend is Some
    }

    /// The increments a complete builder produces.
    pub open spec fn built_deltas(&self) -> Seq<RgbaDiff> {
        recipe_deltas(self.minuend->0, self.subtrahend->0, self.steps as int, self.policy)
    }

    pub fn new() -> (b: RecipeBuilder)
        ensures
            b.minuend is None,
            b.subtrahend is None,
            b.steps == 0,
            b.policy is Truncate,
    {
        RecipeBuilder { minuend: None, subtrahend: None, steps: 0, policy: RemainderPolicy::Truncate }
    }

    pub fn steps(self, s: usize) -> (b: RecipeBuilder)
        ensures
            b == (RecipeBuilder { steps: s, ..self }),
    {
        RecipeBuilder { steps: s, ..self }
    }

    pub fn minuend(self, pixel: Rgba) -> (b: RecipeBuilder)
        ensures
            b == (RecipeBuilder { minuend: Some(pixel), ..self }),
    {
        RecipeBuilder { minuend: Some(pixel), ..self }
    }

    pub fn subtrahend(self, pixel: Rgba) -> (b: RecipeBuilder)
        ensures
            b == (RecipeBuilder { subtrahend: Some(pixel), ..self }),
    {
        RecipeBuilder { subtrahend: Some(pixel), ..self }
    }

    pub fn policy(self, policy: RemainderPolicy) -> (b: RecipeBuilder)
        ensures
            b == (RecipeBuilder { policy, ..self }),
    {
        RecipeBuilder { policy, ..self }
    }

    /// Build the recipe. The step count and both pixels must have been
    /// supplied; `try_build` reports the failure instead of demanding it.
    pub fn build(&mut self) -> (r: Recipe)
        requires
            old(self).complete(),
        ensures
            *final(self) == *old(self),
            r.deltas() == old(self).built_deltas(),
            r.cursor() == 0,
    {
        let r = self.try_build();
        match r {
            Ok(recipe) => recipe,
            Err(_) => {
                proof {
                    assert(false);
                }
                Recipe::new()
            },
        }
    }

    /// Build the recipe, or report `InvalidRecipeRequest` when an
    /// ingredient is missing: a zero step count would leave the recipe
    /// undefined, and without both pixels there is no difference to split.
    pub fn try_build(&mut self) -> (r: Result<Recipe, MorphError>)
        ensures
            *final(self) == *old(self),
            old(self).complete() ==> {
                &&& r is Ok
                &&& r->Ok_0.deltas() == old(self).built_deltas()
                &&& r->Ok_0.cursor() == 0
            },
            !old(self).complete() ==> r == Err::<Recipe, MorphError>(
                MorphError::InvalidRecipeRequest,
            ),
    {
        match self.calc_recipe_vec() {
            Some(v) => Ok(Recipe::from_vec(v)),
            None => Err(MorphError::InvalidRecipeRequest),
        }
    }

    /// The increments themselves: the truncated per-channel difference,
    /// repeated `steps` times, with the remainder folded into the last
    /// entry when the policy asks for it.
    fn calc_recipe_vec(&self) -> (r: Option<Vec<RgbaDiff>>)
        ensures
            self.complete() ==> {
                &&& r is Some
                &&& r->0@ == self.built_deltas()
            },
            !self.complete() ==> r is None,
    {
        if self.steps == 0 || self.minuend.is_none() || self.subtrahend.is_none() {
            return None;
        }
        let m = *self.minuend.as_ref().unwrap();
        let s = *self.subtrahend.as_ref().unwrap();
        // Channel differences lie in [-255, 255], so a divisor beyond 255
        // always gives quotient 0 and leaves the difference as remainder;
        // capping the exec divisor there keeps it inside i32 without
        // changing any result.
        let n: i32 = if self.steps > 255 {
            256
        } else {
            self.steps as i32
        };
        proof {
            lemma_step_delta_small(self.steps as int);
            lemma_step_delta_small(n as int);
            if self.steps > 255 {
                lemma_divisor_beyond_channel_range(self.steps as int);
                lemma_divisor_beyond_channel_range(n as int);
            }
        }
        let base = RgbaDiff(
            crate::nums::div_trunc(m.r as i32 - s.r as i32, n),
            crate::nums::div_trunc(m.g as i32 - s.g as i32, n),
            crate::nums::div_trunc(m.b as i32 - s.b as i32, n),
            crate::nums::div_trunc(m.a as i32 - s.a as i32, n),
        );
        let mut result: Vec<RgbaDiff> = Vec::new();
        let mut i: usize = 0;
        while i < self.steps
            invariant
                i <= self.steps,
                self.steps > 0,
                result@.len() == i,
                base == step_delta(m, s, self.steps as int),
                forall|j: int| 0 <= j < i ==> result@[j] == base,
            decreases self.steps - i,
        {
            result.push(base);
            i = i + 1;
        }
        match self.policy {
            RemainderPolicy::Truncate => {},
            RemainderPolicy::DistributeLast => {
                let last = RgbaDiff(
                    base.0 + crate::nums::rem_trunc(m.r as i32 - s.r as i32, n),
                    base.1 + crate::nums::rem_trunc(m.g as i32 - s.g as i32, n),
                    base.2 + crate::nums::rem_trunc(m.b as i32 - s.b as i32, n),
                    base.3 + crate::nums::rem_trunc(m.a as i32 - s.a as i32, n),
                );
                result.set(self.steps - 1, last);
            },
        }
        proof {
            assert(result@ =~= self.built_deltas());
        }
        Some(result)
    }
}

/// The step increment and the remainder are bounded by the channel range:
/// the quotient and remainder of a difference in [-255, 255] stay there too.
pub proof fn lemma_step_delta_small(steps: int)
    requires
        steps > 0,
    ensures
        forall|c: int|
            -255 <= c <= 255 ==> -255 <= #[trigger] trunc_div(c, steps) <= 255 && -255 <= trunc_div(
                c,
                steps,
            ) + trunc_mod(c, steps) <= 255,
{
    assert forall|c: int| -255 <= c <= 255 implies -255 <= #[trigger] trunc_div(c, steps) <= 255
        && -255 <= trunc_div(c, steps) + trunc_mod(c, steps) <= 255 by {
        crate::nums::lemma_trunc_div_bounded(c, steps);
        crate::nums::lemma_trunc_mod_bounded(c, steps);
        let q = trunc_div(c, steps);
        if c >= 0 {
            // q + mod <= steps * q + mod == c, since q <= steps * q for q >= 0
            assert(q <= steps * q) by (nonlinear_arith)
                requires
                    steps >= 1,
                    q >= 0,
            ;
        } else {
            assert(q >= steps * q) by (nonlinear_arith)
                requires
                    steps >= 1,
                    q <= 0,
            ;
        }
    }
}

/// A divisor larger than any channel difference splits nothing: the
/// quotient is 0 and the whole difference remains.
pub proof fn lemma_divisor_beyond_channel_range(steps: int)
    requires
        steps >= 256,
    ensures
        forall|c: int|
            -255 <= c <= 255 ==> #[trigger] trunc_div(c, steps) == 0 && trunc_mod(c, steps) == c,
{
    assert forall|c: int| -255 <= c <= 255 implies #[trigger] trunc_div(c, steps) == 0
        && trunc_mod(c, steps) == c by {
        if c >= 0 {
            vstd::arithmetic::div_mod::lemma_basic_div(c, steps);
        } else {
            vstd::arithmetic::div_mod::lemma_basic_div(-c, steps);
        }
    }
}

} // verus!
