//! Interpolation algorithms for sample rate transposition.

use vstd::prelude::*;

verus! {

/// Interpolation algorithm types.
#[derive(Debug, Clone, Copy, PartialEq, Eq, Structural)]
pub enum InterpolationAlgorithm {
    /// Linear interpolation (fast, lower quality)
    Linear,
    /// Cubic interpolation (medium speed, good quality)
    Cubic,
}

} // verus!
