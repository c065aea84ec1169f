//! Tempo, pitch and playback-rate processing of audio streams.
//!
//! This crate holds the verified core of the processing pipeline: the sample
//! buffers that every stage reads from and writes to, the validation of the
//! processing settings, and the integer bookkeeping of the time-stretch and
//! beat-detection stages.

use vstd::prelude::*;

pub mod types;
pub mod error;
pub mod aligned_buffer;
pub mod fifo_buffer;
pub mod fifo_pipe;
pub mod interpolate;
pub mod td_stretch;
pub mod overlap_seek;
pub mod soundtouch;
pub mod bpm_detect;
pub mod fir_filter;
pub mod soundstretch;

pub use crate::types::{SampleFormat, SettingId, MAX_CHANNELS};
pub use crate::error::SoundTouchError;
pub use crate::fifo_buffer::FIFOSampleBuffer;
pub use crate::fifo_pipe::FIFOSamplePipe;

verus! {

/// Library version.
pub const VERSION: &'static str = "2.4.0-rs";

/// Library version as a number.
pub const VERSION_ID: u32 = 20400;

} // verus!
