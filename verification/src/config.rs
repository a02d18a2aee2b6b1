use crate::sampler::StratifiedSampler;
use vstd::prelude::*;

verus! {

/// The sampler that a part viewer configuration asks for.
#[derive(Debug, Clone, Copy, PartialEq, Eq)]
pub enum Sampler {
    StratifiedSampler { x_strata_count: usize, y_strata_count: usize, jitter: bool },
}

/// Indicates whether the vertex positions in a mesh assume a right hand
/// coordinate system or a left hand coordinate system.
#[derive(Debug, Clone, Copy, PartialEq, Eq)]
pub enum Handedness {
    LeftHanded,
    RightHanded,
}

/// The number of dimensions that the part viewer's samplers generate values
/// for.
pub const SAMPLED_DIMENSIONS: usize = 5;

/// Builds the sampler that the configuration describes: a stratified sampler
/// with the configured strata counts and jitter, five sampled dimensions and
/// seed zero.
pub fn load_sampler(sampler_config: &Sampler) -> (s: StratifiedSampler)
    ensures
        match *sampler_config {
            Sampler::StratifiedSampler { x_strata_count, y_strata_count, jitter } => s == (
            StratifiedSampler {
                x_strata_count,
                y_strata_count,
                sampled_dimensions: 5,
                seed: 0,
                jitter,
            }),
        },
{
    match sampler_config {
        Sampler::StratifiedSampler { x_strata_count, y_strata_count, jitter } => {
            StratifiedSampler::new(
                *x_strata_count,
                *y_strata_count,
                SAMPLED_DIMENSIONS,
                0,
                *jitter,
            )
        },
    }
}

} // verus!
