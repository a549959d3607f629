//! Analytic rasterization of straight-line geometry.
//!
//! Line segments are clipped to pixel cells, convolved exactly with an
//! antialiasing kernel and accumulated into a row-major coverage buffer.
//! Every algorithm is written over an abstract number type, [`scalar::Scalar`],
//! so that each result is stated exactly in terms of that type's operations;
//! [`fixed::Fixed`] is a number type whose arithmetic is exact and verified.
pub mod scalar;
pub mod fixed;
pub mod geometry;
pub mod filter;
pub mod rasterizer;
pub mod svg;
