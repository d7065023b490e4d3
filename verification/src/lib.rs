//! A Monte-Carlo path tracer for scenes of spheres, built on saturating
//! fixed-point arithmetic so that every step of the pipeline — vector
//! algebra, ray/sphere intersection, nearest-hit reduction, the three
//! material scattering models, the thin-lens camera, the recursive
//! radiance estimator, and the final tone-mapped quantization — carries
//! a contract that pins its result down over a spec-level mirror of the
//! arithmetic.
//!
//! Randomness enters only through explicit per-worker generators; what
//! is proved holds for every value a generator may return.

pub mod camera;
pub mod constants;
pub mod fixed;
pub mod hit;
pub mod ray;
pub mod render;
pub mod rng;
pub mod vec3;
