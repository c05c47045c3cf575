//! The deciding core of a path tracer. The caller does the arithmetic on
//! points, directions and colours; this crate decides what is hit, how light
//! leaves a surface, when a path ends, which cell is painted, and how the
//! picture is written down.

pub mod camera;
pub mod canvas;
pub mod integrator;
pub mod material;
pub mod ppm;
pub mod sampling;
pub mod scalar;
pub mod scene;
pub mod vector;
