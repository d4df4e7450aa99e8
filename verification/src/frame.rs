use vstd::prelude::*;

verus! {

use crate::diff::RgbaDiff;
use crate::pixel::Rgba;
use crate::recipe::{recipe_deltas, MorphError, RecipeBuilder, Recipe, RemainderPolicy};

/// The pixel that results from applying a sequence of deltas in order.
pub open spec fn apply_seq(p: Rgba, ds: Seq<RgbaDiff>) -> Rgba
    decreases ds.len(),
{
    if ds.len() == 0 {
        p
    } else {
        ds.last().applied_to(apply_seq(p, ds.drop_last()))
    }
}

/// Applying one more delta of a sequence extends the prefix by one.
pub proof fn lemma_apply_seq_step(p: Rgba, ds: Seq<RgbaDiff>, k: int)
    requires
        0 <= k < ds.len(),
    ensures
        apply_seq(p, ds.take(k + 1)) == ds[k].applied_to(apply_seq(p, ds.take(k))),
{
    assert(ds.take(k + 1).drop_last() =~= ds.take(k));
    assert(ds.take(k + 1).last() == ds[k]);
}

/// A row-major grid index stays inside the grid.
pub proof fn lemma_grid_index(x: int, y: int, w: int, h: int)
    requires
        0 <= x < w,
        0 <= y < h,
    ensures
        0 <= y * w + x < w * h,
{
    assert(y * w + x < w * h) by (nonlinear_arith)
        requires
            0 <= x < w,
            0 <= y < h,
    ;
    assert(y * w >= 0) by (nonlinear_arith)
        requires
            y >= 0,
            w > 0,
    ;
}

/// A frame buffer: a `width` by `height` grid of pixels stored row-major,
/// so position (x, y) lives at linear offset `y * width + x`.
pub struct Image {
    pub width: usize,
    pub height: usize,
    pub pixels: Vec<Rgba>,
}

impl Image {
    /// Exactly one pixel per grid position.
    pub open spec fn wf(&self) -> bool {
        self.pixels@.len() == self.width * self.height
    }

    /// The linear offset of grid position (x, y).
    pub open spec fn offset_of(&self, x: int, y: int) -> int {
        y * self.width + x
    }

    /// A grid of the given dimensions with every pixel set to `fill`.
    pub fn new(width: usize, height: usize, fill: Rgba) -> (img: Image)
        requires
            width * height <= usize::MAX,
        ensures
            img.wf(),
            img.width == width,
            img.height == height,
            forall|i: int| 0 <= i < img.pixels@.len() ==> img.pixels@[i] == fill,
    {
        let n = width * height;
        let mut pixels: Vec<Rgba> = Vec::new();
        let mut i: usize = 0;
        while i < n
            invariant
                i <= n,
                pixels@.len() == i,
                forall|j: int| 0 <= j < i ==> pixels@[j] == fill,
            decreases n - i,
        {
            pixels.push(fill);
            i = i + 1;
        }
        Image { width, height, pixels }
    }

    /// Wrap an existing pixel buffer; it must fill the grid exactly.
    pub fn from_pixels(width: usize, height: usize, pixels: Vec<Rgba>) -> (img: Image)
        requires
            pixels@.len() == width * height,
        ensures
            img.wf(),
            img == (Image { width, height, pixels }),
    {
        Image { width, height, pixels }
    }

    pub fn get_pixel(&self, x: usize, y: usize) -> (p: Rgba)
        requires
            self.wf(),
            x < self.width,
            y < self.height,
        ensures
            p == self.pixels@[self.offset_of(x as int, y as int)],
    {
        let count = self.pixels.len();
        proof {
            lemma_grid_index(x as int, y as int, self.width as int, self.height as int);
            assert(count == self.width * self.height);
        }
        self.pixels[y * self.width + x]
    }

    pub fn set_pixel(&mut self, x: usize, y: usize, p: Rgba)
        requires
            old(self).wf(),
            x < old(self).width,
            y < old(self).height,
        ensures
            final(self).wf(),
            final(self).width == old(self).width,
            final(self).height == old(self).height,
            final(self).pixels@ == old(self).pixels@.update(
                old(self).offset_of(x as int, y as int),
                p,
            ),
    {
        let count = self.pixels.len();
        proof {
            lemma_grid_index(x as int, y as int, self.width as int, self.height as int);
            assert(count == self.width * self.height);
        }
        let i = y * self.width + x;
        *(&mut self.pixels[i]) = p;
    }

    /// An independent copy of this frame: same dimensions, same pixels,
    /// no aliasing with the live buffer.
    pub fn snapshot(&self) -> (img: Image)
        ensures
            img.width == self.width,
            img.height == self.height,
            img.pixels@ == self.pixels@,
    {
        let mut pixels: Vec<Rgba> = Vec::new();
        let mut i: usize = 0;
        while i < self.pixels.len()
            invariant
                i <= self.pixels@.len(),
                pixels@.len() == i,
                forall|j: int| 0 <= j < i ==> pixels@[j] == self.pixels@[j],
            decreases self.pixels@.len() - i,
        {
            pixels.push(self.pixels[i]);
            i = i + 1;
        }
        proof {
            assert(pixels@ =~= self.pixels@);
        }
        Image { width: self.width, height: self.height, pixels }
    }
}

/// Drives a whole morph run: one recipe per pixel position, a working
/// buffer initialized from the source, and one emitted frame per step,
/// closed by an exact copy of the target.
pub struct FrameGenerator {
    pub steps: usize,
    pub policy: RemainderPolicy,
}

impl FrameGenerator {
    pub fn new(steps: usize) -> (g: FrameGenerator)
        ensures
            g.steps == steps,
            g.policy is Truncate,
    {
        FrameGenerator { steps, policy: RemainderPolicy::Truncate }
    }

    /// What pixel `j` of emitted frame `k` must hold: the source pixel with
    /// the first `k + 1` recipe increments applied.
    pub open spec fn frame_pixel(&self, source: Image, target: Image, k: int, j: int) -> Rgba {
        apply_seq(
            source.pixels@[j],
            recipe_deltas(
                target.pixels@[j],
                source.pixels@[j],
                self.steps as int,
                self.policy,
            ).take(k + 1),
        )
    }

    /// Run the morph: `steps` interpolated frames, then the exact target.
    ///
    /// A zero step count is an invalid recipe request; mismatched
    /// dimensions are rejected before any work. Otherwise the result holds
    /// `steps + 1` frames: frame `k < steps` is the source with `k + 1`
    /// increments applied to every pixel, and frame `steps` is the target
    /// itself, untouched by rounding drift.
    #[verifier::loop_isolation(false)]
    pub fn generate(&self, source: &Image, target: &Image) -> (r: Result<Vec<Image>, MorphError>)
        requires
            source.wf(),
            target.wf(),
        ensures
            self.steps == 0 ==> r == Err::<Vec<Image>, MorphError>(
                MorphError::InvalidRecipeRequest,
            ),
            self.steps > 0 && !(source.width == target.width && source.height == target.height)
                ==> r == Err::<Vec<Image>, MorphError>(MorphError::DimensionMismatch),
            self.steps > 0 && source.width == target.width && source.height == target.height ==> {
                &&& r is Ok
                &&& r->Ok_0@.len() == self.steps + 1
                &&& forall|k: int|
                    0 <= k < self.steps ==> {
                        &&& (#[trigger] r->Ok_0@[k]).wf()
                        &&& r->Ok_0@[k].width == source.width
                        &&& r->Ok_0@[k].height == source.height
                        &&& forall|j: int|
                            0 <= j < source.pixels@.len() ==> r->Ok_0@[k].pixels@[j]
                                == self.frame_pixel(*source, *target, k, j)
                    }
                &&& r->Ok_0@[self.steps as int].width == target.width
                &&& r->Ok_0@[self.steps as int].height == target.height
                &&& r->Ok_0@[self.steps as int].pixels@ == target.pixels@
            },
    {
        if self.steps == 0 {
            return Err(MorphError::InvalidRecipeRequest);
        }
        if source.width != target.width || source.height != target.height {
            return Err(MorphError::DimensionMismatch);
        }
        let n = source.pixels.len();
        let ghost deltas_at = |j: int|
            recipe_deltas(
                target.pixels@[j],
                source.pixels@[j],
                self.steps as int,
                self.policy,
            );

        // One recipe per pixel position, in linear-offset order.
        let mut recipes: Vec<Recipe> = Vec::new();
        let mut j: usize = 0;
        while j < n
            invariant
                j <= n,
                recipes@.len() == j,
                forall|t: int|
                    0 <= t < j ==> (#[trigger] recipes@[t]).deltas() == deltas_at(t)
                        && recipes@[t].cursor() == 0,
            decreases n - j,
        {
            let mut builder = RecipeBuilder::new().steps(self.steps).minuend(
                target.pixels[j],
            ).subtrahend(source.pixels[j]).policy(self.policy);
            let recipe = builder.build();
            recipes.push(recipe);
            j = j + 1;
        }

        // The working buffer starts as a copy of the source and is nudged
        // in place once per pixel per step.
        let mut buf = source.snapshot();
        let mut frames: Vec<Image> = Vec::new();
        let mut k: usize = 0;
        while k < self.steps
            invariant
                k <= self.steps,
                recipes@.len() == n,
                forall|t: int|
                    0 <= t < n ==> (#[trigger] recipes@[t]).deltas() == deltas_at(t)
                        && recipes@[t].cursor() == k,
                buf.width == source.width,
                buf.height == source.height,
                buf.pixels@.len() == n,
                forall|t: int|
                    0 <= t < n ==> (#[trigger] buf.pixels@[t]) == apply_seq(
                        source.pixels@[t],
                        deltas_at(t).take(k as int),
                    ),
                frames@.len() == k,
                forall|m: int|
                    0 <= m < k ==> {
                        &&& (#[trigger] frames@[m]).wf()
                        &&& frames@[m].width == source.width
                        &&& frames@[m].height == source.height
                        &&& forall|t: int|
                            0 <= t < n ==> frames@[m].pixels@[t] == self.frame_pixel(
                                *source,
                                *target,
                                m,
                                t,
                            )
                    },
            decreases self.steps - k,
        {
            let mut j: usize = 0;
            while j < n
                invariant
                    j <= n,
                    k < self.steps,
                    recipes@.len() == n,
                    forall|t: int|
                        0 <= t < n ==> (#[trigger] recipes@[t]).deltas() == deltas_at(t)
                            && recipes@[t].cursor() == if t < j {
                            k + 1
                        } else {
                            k as int
                        },
                    buf.width == source.width,
                    buf.height == source.height,
                    buf.pixels@.len() == n,
                    forall|t: int|
                        0 <= t < n ==> (#[trigger] buf.pixels@[t]) == apply_seq(
                            source.pixels@[t],
                            deltas_at(t).take(if t < j { k + 1 } else { k as int }),
                        ),
                decreases n - j,
            {
                let d = recipes[j].next();
                match d {
                    Some(delta) => {
                        let nudged = delta.apply_to_pixel(buf.pixels[j]);
                        proof {
                            lemma_apply_seq_step(source.pixels@[j as int], deltas_at(j as int), k as int);
                        }
                        *(&mut buf.pixels[j]) = nudged;
                    },
                    None => {
                        // Unreachable: every recipe holds `steps` increments
                        // and the cursor stands at `k < steps`.
                        proof {
                            assert(false);
                        }
                    },
                }
                j = j + 1;
            }
            frames.push(buf.snapshot());
            k = k + 1;
        }
        frames.push(target.snapshot());
        Ok(frames)
    }
}

} // verus!
