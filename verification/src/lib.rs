//! The exact part of a small ray tracer.
//!
//! A ray tracer computes in floating point, and floating point rounds. This
//! library holds what does not round: the shapes of matrices and their
//! rearrangements, the layouts of the affine transforms, the rules on what
//! may be added to or scaled, the order of numbers and with it the choice of
//! the intersection that is seen, the pixel map and its text. A number is
//! kept as the bit pattern of its binary64 encoding, which the caller's
//! arithmetic produces and consumes.

pub mod scalar;
pub mod vectors;
pub mod matrix;
pub mod transformations;
pub mod ray;
pub mod intersections;
pub mod geometries;
pub mod lights;
pub mod colors;
pub mod canvas;
pub mod scenes;
