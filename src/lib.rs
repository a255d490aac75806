//! A Monte Carlo path tracer over spheres, generic in the vector and scalar
//! types that carry its geometry.
//!
//! The library holds the tracer's structure: rays, materials and their
//! scatter decisions, the scene's nearest-hit scan, the bounded bounce loop
//! of the radiance estimator, the pixel grid and its PPM encoding. The
//! arithmetic on vectors (intersection roots, reflection, sampling) is
//! supplied by the caller as closures.

mod integrator;
mod material;
mod ppm;
mod ray;
mod render;
mod scene;

pub use integrator::{
    color, is_path, lemma_depth_limit_is_black, lemma_empty_scene_shows_background, Path,
    PathEnd, Scatter,
};
pub use material::{
    lemma_lambertian_never_absorbs, Dielectric, Lambertian, Material, Metal, NullMaterial,
};
pub use ppm::{decimal, encode_ppm, pixel_line, pixel_lines, ppm_header, ppm_text};
pub use ray::Ray;
pub use render::{raster_at, render, Image, RenderError, Rgba};
pub use scene::{
    closest_so_far, last_hit, lemma_empty_list_no_hit, lemma_hit_deterministic, HitRecord,
    HitableList, Sphere,
};
