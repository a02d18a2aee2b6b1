use vstd::prelude::*;

verus! {

/// Represents a spectral power distribution (SPD), a distribution function that
/// describes the amount of light at each wavelength.
pub struct Spectrum {}

} // verus!
