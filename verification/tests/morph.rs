use trans_rs::{
    add_vecs, divide_pixel, divide_vec, mod_pixel, mod_vec, pixel_to_vec, sub_vecs,
    substract_pixels_to_vec, FrameGenerator, Image, MorphError, Recipe, RecipeBuilder,
    RemainderPolicy, Rgb, Rgba, RgbaDiff,
};

// ---- the channel-vector helpers ----

#[test]
fn mod_pixel_five() {
    assert_eq!(mod_pixel(Rgb::new(25, 40, 17), 5), vec![0, 0, 2]);
}

#[test]
fn mod_pixel_three() {
    assert_eq!(mod_pixel(Rgb::new(33, 20, 83), 3), vec![0, 2, 2]);
}

#[test]
fn sub_vecs_test() {
    let vec1 = vec![23, 34, 12];
    let vec2 = vec![15, 15, 2];
    assert_eq!(sub_vecs(vec1, vec2), vec![8, 19, 10]);
}

#[test]
fn sub_vec_test_negative() {
    let vec1 = vec![33, 15, 3];
    let vec2 = vec![-10, 20, 10];
    assert_eq!(sub_vecs(vec1, vec2), vec![43, -5, -7]);
}

#[test]
fn divide_vec_by_two() {
    let test_vec = vec![13, 10, 15];
    assert_eq!(divide_vec(test_vec, 2), vec![6, 5, 7]);
}

#[test]
fn divide_vec_by_five() {
    let test_vec = vec![25, 100, 19];
    assert_eq!(divide_vec(test_vec, 5), vec![5, 20, 3]);
}

#[test]
fn substract_pixel_one() {
    let p1 = Rgb::new(255, 50, 100);
    let p2 = Rgb::new(244, 90, 75);
    assert_eq!(substract_pixels_to_vec(p1, p2), vec![11, -40, 25]);
}

#[test]
fn divide_vec_truncates_toward_zero() {
    assert_eq!(divide_vec(vec![-7, 7, -10], 2), vec![-3, 3, -5]);
    assert_eq!(divide_vec(vec![9, -9], -2), vec![-4, 4]);
}

#[test]
fn mod_vec_keeps_dividend_sign() {
    assert_eq!(mod_vec(vec![-7, 7, 6], 3), vec![-1, 1, 0]);
}

#[test]
fn add_vecs_zips_to_shorter() {
    assert_eq!(add_vecs(vec![1, 2, 3], vec![10, 20]), vec![11, 22]);
    assert_eq!(add_vecs(vec![-5, 5], vec![5, -5]), vec![0, 0]);
}

#[test]
fn divide_pixel_by_three() {
    assert_eq!(divide_pixel(Rgb::new(33, 20, 83), 3), vec![11, 6, 27]);
}

#[test]
fn pixel_to_vec_widens_channels() {
    assert_eq!(pixel_to_vec(Rgba::new(255, 0, 128, 7)), vec![255, 0, 128, 7]);
}

// ---- RgbaDiff ----

#[test]
fn diff_channels_round_trip() {
    let d = RgbaDiff::new(1, -4, 2, 0);
    assert_eq!(d.channels(), vec![1, -4, 2, 0]);
    let d2 = RgbaDiff::from_vec([1, -4, 2, 0]);
    assert_eq!(d2.channels(), vec![1, -4, 2, 0]);
    let d3 = RgbaDiff::from_pixel(Rgba::new(9, 8, 7, 6));
    assert_eq!(d3.channels(), vec![9, 8, 7, 6]);
}

#[test]
fn zero_delta_is_identity() {
    let zero = RgbaDiff::new(0, 0, 0, 0);
    for p in [
        Rgba::new(0, 0, 0, 0),
        Rgba::new(255, 255, 255, 255),
        Rgba::new(12, 200, 3, 99),
    ] {
        assert_eq!(zero.apply_to_pixel(p), p);
    }
}

#[test]
fn apply_clamps_to_channel_range() {
    let d = RgbaDiff::new(-300, 300, 0, -1);
    let p = d.apply_to_pixel(Rgba::new(10, 200, 5, 0));
    assert_eq!(p, Rgba::new(0, 255, 5, 0));
}

// ---- Recipe ----

#[test]
fn recipe_yields_steps_then_exhausts() {
    let d = RgbaDiff::new(1, 2, 3, 4);
    let mut r = Recipe::from_vec(vec![d, d, d]);
    assert_eq!(r.max_step(), 3);
    assert_eq!(r.next(), Some(d));
    assert_eq!(r.next(), Some(d));
    assert_eq!(r.next(), Some(d));
    assert_eq!(r.next(), None);
    assert_eq!(r.next(), None);
}

#[test]
fn empty_recipe_starts_exhausted() {
    let mut r = Recipe::new();
    assert_eq!(r.max_step(), 0);
    assert_eq!(r.next(), None);
}

// ---- RecipeBuilder ----

#[test]
fn builder_constant_increment() {
    // source pixel (244, 90, 75, 255), target pixel (255, 50, 100, 255),
    // 10 steps: every increment is the truncating quotient (1, -4, 2, 0).
    let mut b = RecipeBuilder::new()
        .steps(10)
        .minuend(Rgba::new(255, 50, 100, 255))
        .subtrahend(Rgba::new(244, 90, 75, 255));
    let mut r = b.build();
    assert_eq!(r.max_step(), 10);
    for _ in 0..10 {
        assert_eq!(r.next(), Some(RgbaDiff::new(1, -4, 2, 0)));
    }
    assert_eq!(r.next(), None);
}

#[test]
fn ten_applications_leave_rounding_drift() {
    // After 10 applications of (1, -4, 2, 0) the pixel is (254, 50, 95, 255):
    // NOT the target (255, 50, 100, 255) — the drift (1, 0, 5, 0) is expected.
    let mut b = RecipeBuilder::new()
        .steps(10)
        .minuend(Rgba::new(255, 50, 100, 255))
        .subtrahend(Rgba::new(244, 90, 75, 255));
    let mut r = b.build();
    let mut p = Rgba::new(244, 90, 75, 255);
    while let Some(d) = r.next() {
        p = d.apply_to_pixel(p);
    }
    assert_eq!(p, Rgba::new(254, 50, 95, 255));
    assert_ne!(p, Rgba::new(255, 50, 100, 255));
}

#[test]
fn constant_increment_drift_is_bounded() {
    // a = 0, b = 255, n = 10: increment 25, ten applications give 250,
    // missing the target by 5 <= n - 1.
    let mut b = RecipeBuilder::new()
        .steps(10)
        .minuend(Rgba::new(255, 255, 255, 255))
        .subtrahend(Rgba::new(0, 0, 0, 0));
    let mut r = b.build();
    let mut p = Rgba::new(0, 0, 0, 0);
    while let Some(d) = r.next() {
        assert_eq!(d.channels(), vec![25, 25, 25, 25]);
        p = d.apply_to_pixel(p);
    }
    assert_eq!(p, Rgba::new(250, 250, 250, 250));
}

#[test]
fn distribute_last_lands_exactly() {
    let mut b = RecipeBuilder::new()
        .steps(10)
        .minuend(Rgba::new(255, 50, 100, 255))
        .subtrahend(Rgba::new(244, 90, 75, 255))
        .policy(RemainderPolicy::DistributeLast);
    let mut r = b.build();
    let mut p = Rgba::new(244, 90, 75, 255);
    let mut last = None;
    while let Some(d) = r.next() {
        last = Some(d);
        p = d.apply_to_pixel(p);
    }
    // The first nine increments are (1, -4, 2, 0); the tenth also carries
    // the remainder (1, 0, 5, 0).
    assert_eq!(last, Some(RgbaDiff::new(2, -4, 7, 0)));
    assert_eq!(p, Rgba::new(255, 50, 100, 255));
}

#[test]
fn try_build_rejects_missing_ingredients() {
    let mut no_steps = RecipeBuilder::new()
        .minuend(Rgba::new(1, 2, 3, 4))
        .subtrahend(Rgba::new(4, 3, 2, 1));
    assert_eq!(
        no_steps.try_build().err(),
        Some(MorphError::InvalidRecipeRequest)
    );
    let mut no_pixels = RecipeBuilder::new().steps(3);
    assert_eq!(
        no_pixels.try_build().err(),
        Some(MorphError::InvalidRecipeRequest)
    );
    let mut complete = RecipeBuilder::new()
        .steps(3)
        .minuend(Rgba::new(1, 2, 3, 4))
        .subtrahend(Rgba::new(4, 3, 2, 1));
    assert!(complete.try_build().is_ok());
}

// ---- FrameGenerator ----

#[test]
fn one_by_one_run_with_one_step_gives_two_artifacts() {
    let source = Image::from_pixels(1, 1, vec![Rgba::new(244, 90, 75, 255)]);
    let target = Image::from_pixels(1, 1, vec![Rgba::new(255, 50, 100, 255)]);
    let frames = FrameGenerator::new(1).generate(&source, &target).unwrap();
    assert_eq!(frames.len(), 2);
    // With a single step the increment is the whole difference, so the
    // interpolated frame already equals the target.
    assert_eq!(frames[0].get_pixel(0, 0), Rgba::new(255, 50, 100, 255));
    assert_eq!(frames[1].get_pixel(0, 0), Rgba::new(255, 50, 100, 255));
}

#[test]
fn zero_steps_is_an_invalid_recipe_request() {
    let source = Image::from_pixels(1, 1, vec![Rgba::new(1, 2, 3, 4)]);
    let target = Image::from_pixels(1, 1, vec![Rgba::new(4, 3, 2, 1)]);
    let r = FrameGenerator::new(0).generate(&source, &target);
    assert_eq!(r.err(), Some(MorphError::InvalidRecipeRequest));
}

#[test]
fn mismatched_dimensions_are_rejected() {
    let source = Image::from_pixels(1, 1, vec![Rgba::new(1, 2, 3, 4)]);
    let target = Image::from_pixels(
        2,
        1,
        vec![Rgba::new(4, 3, 2, 1), Rgba::new(4, 3, 2, 1)],
    );
    let r = FrameGenerator::new(5).generate(&source, &target);
    assert_eq!(r.err(), Some(MorphError::DimensionMismatch));
}

#[test]
fn two_pixel_run_interpolates_each_position() {
    let source = Image::from_pixels(
        2,
        1,
        vec![Rgba::new(0, 0, 0, 0), Rgba::new(100, 200, 10, 255)],
    );
    let target = Image::from_pixels(
        2,
        1,
        vec![Rgba::new(9, 5, 0, 255), Rgba::new(0, 190, 10, 0)],
    );
    let frames = FrameGenerator::new(2).generate(&source, &target).unwrap();
    assert_eq!(frames.len(), 3);
    // Per-step increments: (4, 2, 0, 127) at (0,0), (-50, -5, 0, -127) at (1,0).
    assert_eq!(frames[0].get_pixel(0, 0), Rgba::new(4, 2, 0, 127));
    assert_eq!(frames[0].get_pixel(1, 0), Rgba::new(50, 195, 10, 128));
    assert_eq!(frames[1].get_pixel(0, 0), Rgba::new(8, 4, 0, 254));
    assert_eq!(frames[1].get_pixel(1, 0), Rgba::new(0, 190, 10, 1));
    // The closing artifact is the exact target, drift or no drift.
    assert_eq!(frames[2].get_pixel(0, 0), Rgba::new(9, 5, 0, 255));
    assert_eq!(frames[2].get_pixel(1, 0), Rgba::new(0, 190, 10, 0));
}

#[test]
fn final_artifact_is_exact_target_despite_drift() {
    let source = Image::from_pixels(1, 1, vec![Rgba::new(244, 90, 75, 255)]);
    let target = Image::from_pixels(1, 1, vec![Rgba::new(255, 50, 100, 255)]);
    let frames = FrameGenerator::new(10).generate(&source, &target).unwrap();
    assert_eq!(frames.len(), 11);
    // Frame 9, the last interpolation, still carries the rounding drift.
    assert_eq!(frames[9].get_pixel(0, 0), Rgba::new(254, 50, 95, 255));
    // Frame 10 is the target itself.
    assert_eq!(frames[10].get_pixel(0, 0), Rgba::new(255, 50, 100, 255));
}

#[test]
fn generator_honors_distribute_last_policy() {
    let source = Image::from_pixels(1, 1, vec![Rgba::new(244, 90, 75, 255)]);
    let target = Image::from_pixels(1, 1, vec![Rgba::new(255, 50, 100, 255)]);
    let g = FrameGenerator {
        steps: 10,
        policy: RemainderPolicy::DistributeLast,
    };
    let frames = g.generate(&source, &target).unwrap();
    // Under the alternative policy the last interpolated frame already
    // equals the target.
    assert_eq!(frames[9].get_pixel(0, 0), Rgba::new(255, 50, 100, 255));
    assert_eq!(frames[10].get_pixel(0, 0), Rgba::new(255, 50, 100, 255));
}

// ---- Image ----

#[test]
fn image_get_and_set_pixel() {
    let mut img = Image::new(3, 2, Rgba::new(0, 0, 0, 0));
    img.set_pixel(2, 1, Rgba::new(9, 8, 7, 6));
    assert_eq!(img.get_pixel(2, 1), Rgba::new(9, 8, 7, 6));
    assert_eq!(img.get_pixel(0, 0), Rgba::new(0, 0, 0, 0));
    let copy = img.snapshot();
    img.set_pixel(0, 0, Rgba::new(1, 1, 1, 1));
    // The snapshot is independent of the live buffer.
    assert_eq!(copy.get_pixel(0, 0), Rgba::new(0, 0, 0, 0));
}
