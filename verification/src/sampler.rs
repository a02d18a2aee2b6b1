use vstd::prelude::*;

verus! {

/// A sampler that divides each pixel into a grid of strata and takes one
/// sample in each stratum.
#[derive(Debug, Clone, Copy, PartialEq, Eq)]
pub struct StratifiedSampler {
    /// The number of strata along the x axis of a pixel.
    pub x_strata_count: usize,
    /// The number of strata along the y axis of a pixel.
    pub y_strata_count: usize,
    /// The number of dimensions for which sample values are generated.
    pub sampled_dimensions: usize,
    /// The seed of the sampler's pseudo-random number generator.
    pub seed: u64,
    /// Whether each sample is moved to a random position inside its stratum
    /// rather than placed at the stratum's center.
    pub jitter: bool,
}

impl StratifiedSampler {
    pub fn new(
        x_strata_count: usize,
        y_strata_count: usize,
        sampled_dimensions: usize,
        seed: u64,
        jitter: bool,
    ) -> (s: Self)
        ensures
            s == (StratifiedSampler {
                x_strata_count,
                y_strata_count,
                sampled_dimensions,
                seed,
                jitter,
            }),
    {
        StratifiedSampler { x_strata_count, y_strata_count, sampled_dimensions, seed, jitter }
    }
}

} // verus!
