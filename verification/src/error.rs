//! Error type of the library.

use vstd::prelude::*;

verus! {

/// Outside error type: an I/O failure.
#[verifier::external_type_specification]
#[verifier::external_body]
pub struct ExIoError(std::io::Error);

/// Outside error type: a failure of the WAV reader or writer.
#[verifier::external_type_specification]
#[verifier::external_body]
pub struct ExHoundError(hound::Error);

/// Errors reported by the processing stages.
#[derive(Debug)]
pub enum SoundTouchError {
    /// The sample rate was not set before processing.
    SampleRateNotSet,
    /// The number of channels was not set before processing.
    ChannelsNotSet,
    /// A channel count outside 1 ..= `MAX_CHANNELS`.
    InvalidChannels(u32),
    /// An unsupported sample rate.
    InvalidSampleRate(u32),
    /// A buffer that cannot hold what is asked of it.
    BufferTooSmall { required: usize, actual: usize },
    /// A parameter outside its allowed range.
    InvalidParameter(String),
    /// An I/O failure.
    Io(std::io::Error),
    /// A WAV reader or writer failure.
    Wav(hound::Error),
}

} // verus!
