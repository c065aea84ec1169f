//! Common type definitions.

use vstd::prelude::*;

use crate::error::SoundTouchError;

verus! {

/// Maximum number of channels supported.
pub const MAX_CHANNELS: usize = 32;

/// Sample format enumeration.
#[derive(Debug, Clone, Copy, PartialEq, Eq, Structural)]
pub enum SampleFormat {
    Float32,
    Int16,
}

/// Setting identifiers for `set_setting` / `get_setting`.
#[derive(Debug, Clone, Copy, PartialEq, Eq, Structural)]
pub enum SettingId {
    /// Enable/disable anti-alias filter in pitch transposer
    UseAAFilter,
    /// Pitch transposer anti-alias filter length (8..128 taps, default = 32)
    AAFilterLength,
    /// Enable/disable quick seeking algorithm
    UseQuickSeek,
    /// Time-stretch sequence length in milliseconds
    SequenceMs,
    /// Time-stretch seeking window length in milliseconds
    SeekWindowMs,
    /// Time-stretch overlap length in milliseconds
    OverlapMs,
    /// Processing sequence size in samples (read-only)
    NominalInputSequence,
    /// Nominal average output size in samples (read-only)
    NominalOutputSequence,
    /// Initial processing latency in samples (read-only)
    InitialLatency,
}

impl SettingId {
    /// The numeric code of a setting (its position in the enumeration).
    pub open spec fn code(self) -> nat {
        match self {
            SettingId::UseAAFilter => 0,
            SettingId::AAFilterLength => 1,
            SettingId::UseQuickSeek => 2,
            SettingId::SequenceMs => 3,
            SettingId::SeekWindowMs => 4,
            SettingId::OverlapMs => 5,
            SettingId::NominalInputSequence => 6,
            SettingId::NominalOutputSequence => 7,
            SettingId::InitialLatency => 8,
        }
    }

    /// The setting with the given numeric code; unknown codes select `UseAAFilter`.
    pub open spec fn from_code(value: usize) -> SettingId {
        if value == 1 {
            SettingId::AAFilterLength
        } else if value == 2 {
            SettingId::UseQuickSeek
        } else if value == 3 {
            SettingId::SequenceMs
        } else if value == 4 {
            SettingId::SeekWindowMs
        } else if value == 5 {
            SettingId::OverlapMs
        } else if value == 6 {
            SettingId::NominalInputSequence
        } else if value == 7 {
            SettingId::NominalOutputSequence
        } else if value == 8 {
            SettingId::InitialLatency
        } else {
            SettingId::UseAAFilter
        }
    }
}

impl From<usize> for SettingId {
    fn from(value: usize) -> (r: SettingId) {
        match value {
            0 => SettingId::UseAAFilter,
            1 => SettingId::AAFilterLength,
            2 => SettingId::UseQuickSeek,
            3 => SettingId::SequenceMs,
            4 => SettingId::SeekWindowMs,
            5 => SettingId::OverlapMs,
            6 => SettingId::NominalInputSequence,
            7 => SettingId::NominalOutputSequence,
            8 => SettingId::InitialLatency,
            _ => SettingId::UseAAFilter,
        }
    }
}

impl vstd::std_specs::convert::FromSpecImpl<usize> for SettingId {
    open spec fn obeys_from_spec() -> bool {
        true
    }

    open spec fn from_spec(v: usize) -> SettingId {
        SettingId::from_code(v)
    }
}

/// Decoding a setting's numeric code gives the setting back.
pub proof fn lemma_setting_code_roundtrip(id: SettingId)
    ensures
        SettingId::from_code(id.code() as usize) == id,
{
}

/// Whether a channel count is supported (1 ..= `MAX_CHANNELS`).
pub open spec fn valid_channels(num_channels: usize) -> bool {
    1 <= num_channels <= MAX_CHANNELS
}

/// Checks a channel count: `Ok` for 1 ..= `MAX_CHANNELS`, else the error that
/// names the rejected count.
pub fn check_channels(num_channels: usize) -> (r: Result<(), SoundTouchError>)
    ensures
        r is Ok <==> valid_channels(num_channels),
        !valid_channels(num_channels) ==> r == Err::<(), SoundTouchError>(
            SoundTouchError::InvalidChannels(num_channels as u32),
        ),
{
    if num_channels == 0 || num_channels > MAX_CHANNELS {
        return Err(SoundTouchError::InvalidChannels(num_channels as u32));
    }
    Ok(())
}

} // verus!
