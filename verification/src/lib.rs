//! An offline, physically-inspired renderer core: scene geometry behind a
//! closed surface abstraction, a bounding-volume hierarchy over it, a
//! recursive Monte Carlo integrator, and the texture and material models
//! that drive it.
//!
//! Every scalar is a signed 16.16 fixed-point number (see `fixed`), which
//! keeps all arithmetic total and lets each query carry an exact contract:
//! intersection routines are specified by spec-level mirrors of their
//! arithmetic, the hierarchy is proved to agree with a flat linear scan,
//! and the random scattering draws are confined to two small wrappers over
//! the `rand` crate, with every caller specified for all possible outcomes.
//!
//! Scene description, pixel sampling, tone mapping and image encoding are
//! deliberately outside: callers hand in surfaces and a camera, and take
//! linear colors back.

pub mod aabb;
pub mod bvh;
pub mod camera;
pub mod cornellbox;
pub mod fixed;
pub mod hittable;
pub mod integrator;
pub mod material;
pub mod moving_sphere;
pub mod perlin;
pub mod ray;
pub mod rectangle;
pub mod rng;
pub mod rotate;
pub mod sphere;
pub mod texture;
pub mod translate;
pub mod trig;
pub mod vec3;
