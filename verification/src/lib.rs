//! Shading core of a physically based renderer: a multi-lobe principled
//! material that builds weighted scattering lobes from surface parameters.
//!
//! All quantities are fixed-point numbers: an `i64` holding the value
//! multiplied by 2^32.  Directions are unit vectors in the local shading
//! frame (z is the shading normal); spectra are tristimulus values.

pub mod fixed;
pub mod shading_math;
pub mod lobes;
pub mod params;
pub mod material;
pub mod geometry;
pub mod spectrum;
