//! Morph one image into another by a fixed number of intermediate frames.
//!
//! Each frame nudges every pixel a constant per-step increment closer to the
//! target: the per-channel difference between target and source is divided
//! (truncating toward zero) by the step count, and the resulting constant
//! delta is applied once per step to a working frame buffer. The final
//! artifact is the exact target image, which absorbs the rounding drift that
//! the truncating division leaves behind.

pub mod diff;
pub mod frame;
pub mod laws;
pub mod nums;
pub mod pixel;
pub mod recipe;
pub mod vecs;

pub use diff::RgbaDiff;
pub use frame::FrameGenerator;
pub use frame::Image;
pub use pixel::Rgb;
pub use pixel::Rgba;
pub use recipe::MorphError;
pub use recipe::Recipe;
pub use recipe::RecipeBuilder;
pub use recipe::RemainderPolicy;
pub use vecs::add_vecs;
pub use vecs::divide_pixel;
pub use vecs::divide_vec;
pub use vecs::mod_pixel;
pub use vecs::mod_vec;
pub use vecs::pixel_to_vec;
pub use vecs::sub_vecs;
pub use vecs::substract_pixels_to_vec;
