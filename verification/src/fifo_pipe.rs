//! Chainable first-in-first-out processing stage.
//!
//! Processing stages can be chained so that samples fed into the first
//! stage go through all of them; each stage takes interleaved samples in and
//! hands processed samples out.

use vstd::prelude::*;

verus! {

/// A first-in-first-out processing stage over samples of type `T`.
pub trait FIFOSamplePipe<T> {
    /// Adds `num_samples` frames of `samples` to the stage.
    fn put_samples(&mut self, samples: &[T], num_samples: usize);

    /// Moves up to `max_samples` processed frames into `output`; returns
    /// how many frames it moved.
    fn receive_samples(&mut self, output: &mut [T], max_samples: usize) -> usize;

    /// Number of processed frames available.
    fn num_samples(&self) -> usize;

    /// Whether no processed frame is available.
    fn is_empty(&self) -> bool {
        self.num_samples() == 0
    }

    /// Drops every sample.
    fn clear(&mut self);

    /// Keeps at most `num_samples` processed frames; returns how many remain.
    fn adjust_amount_of_samples(&mut self, num_samples: usize) -> usize;
}

} // verus!
