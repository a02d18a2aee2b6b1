//! Integer and index logic of a physically based renderer: pixel bounds,
//! film tiles, the division of an image into render tiles, scattering-type
//! flags, triangle meshes, sampler configuration and image cropping.
pub mod bsdf;
pub mod color;
pub mod config;
pub mod crop;
pub mod film;
pub mod filter;
pub mod geometry;
pub mod integrator;
pub mod sampler;
pub mod shape;

use vstd::prelude::*;

verus! {

/// Indicates whether a ray that found a surface interaction was found along a
/// path starting from a camera or a path starting from a light source.
#[derive(Debug, Clone, Copy, PartialEq, Eq)]
pub enum TransportMode {
    Radiance,
    Importance,
}

} // verus!
