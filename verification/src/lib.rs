//! Rasterization of two-dimensional photonic-crystal unit cells and the table of
//! their Fourier coefficients, on whole numbers.
//!
//! Lengths are whole counts of a unit that the caller picks (a picometre, say);
//! dielectric constants and fractional coordinates are whole ten-thousandths, and
//! rotations are whole degrees. With that, whether a pixel's centre lies in a circle
//! is decided exactly, a triangle is turned by a table of sines that is exact at the
//! quarter turns, and the mean of the grid is an exact quotient: the sum of the
//! samples over their number.
//!
//! The discrete transform itself works on complex exponentials and is not part of
//! this library: `DielectricGrid::zero_mean_field` gives what is to be transformed,
//! and `calculate_all_xi` makes the table from what the transform returned.

pub mod store;
pub mod material;
pub mod lattice;
pub mod geometry;
pub mod crystal;
pub mod angles;
pub mod raster;
pub mod fourier;
pub mod engine;
pub mod scaling;
pub mod symmetry;
