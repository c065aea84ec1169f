//! Decisions of the main processor that do not depend on the audio: whether
//! processing may start, and what a setting change does and reads back.

use vstd::prelude::*;

use crate::error::SoundTouchError;
use crate::td_stretch::TDStretchSettings;
use crate::types::SettingId;

verus! {

/// Checks that processing may start: the sample rate must have been set,
/// then the number of channels (0 meaning not set).
pub fn check_ready(sample_rate_set: bool, channels: usize) -> (r: Result<(), SoundTouchError>)
    ensures
        !sample_rate_set ==> r == Err::<(), SoundTouchError>(SoundTouchError::SampleRateNotSet),
        sample_rate_set && channels == 0 ==> r == Err::<(), SoundTouchError>(
            SoundTouchError::ChannelsNotSet,
        ),
        sample_rate_set && channels != 0 ==> r is Ok,
{
    if !sample_rate_set {
        return Err(SoundTouchError::SampleRateNotSet);
    }
    if channels == 0 {
        return Err(SoundTouchError::ChannelsNotSet);
    }
    Ok(())
}

/// What a setting change does to the processing stages.
#[derive(Debug, Clone, Copy, PartialEq, Eq, Structural)]
pub enum SettingChange {
    /// Enable or disable the anti-alias filter of the rate transposer.
    UseAAFilter(bool),
    /// Set the number of taps of the anti-alias filter.
    AAFilterLength(usize),
    /// Enable or disable quick seeking in the time stretcher.
    UseQuickSeek(bool),
    /// Give the time stretcher these parameters (sample rate, sequence,
    /// seek window and overlap lengths in milliseconds).
    StretchParameters(u32, i32, i32, i32),
    /// The setting cannot be written.
    ReadOnly,
}

/// The change that setting `setting_id` to `value` makes, given the time
/// stretcher's current parameters as `get_parameters` reports them: the
/// other parameters are passed on as reported.
pub open spec fn setting_change_spec(
    setting_id: SettingId,
    value: i32,
    parameters: (u32, usize, usize, usize),
) -> SettingChange {
    let (sample_rate, sequence_ms, seek_window_ms, overlap_ms) = parameters;
    match setting_id {
        SettingId::UseAAFilter => SettingChange::UseAAFilter(value != 0),
        SettingId::AAFilterLength => SettingChange::AAFilterLength(value as usize),
        SettingId::UseQuickSeek => SettingChange::UseQuickSeek(value != 0),
        SettingId::SequenceMs => SettingChange::StretchParameters(
            sample_rate,
            value,
            seek_window_ms as i32,
            overlap_ms as i32,
        ),
        SettingId::SeekWindowMs => SettingChange::StretchParameters(
            sample_rate,
            sequence_ms as i32,
            value,
            overlap_ms as i32,
        ),
        SettingId::OverlapMs => SettingChange::StretchParameters(
            sample_rate,
            sequence_ms as i32,
            seek_window_ms as i32,
            value,
        ),
        _ => SettingChange::ReadOnly,
    }
}

/// The change that setting `setting_id` to `value` makes (see
/// `setting_change_spec`); `set_setting` reports success exactly when it
/// is not `ReadOnly`.
pub fn setting_change(
    setting_id: SettingId,
    value: i32,
    parameters: (u32, usize, usize, usize),
) -> (r: SettingChange)
    ensures
        r == setting_change_spec(setting_id, value, parameters),
        setting_id == SettingId::UseAAFilter ==> r == SettingChange::UseAAFilter(value != 0),
        setting_id == SettingId::UseQuickSeek ==> r == SettingChange::UseQuickSeek(value != 0),
        setting_id == SettingId::AAFilterLength ==> r == SettingChange::AAFilterLength(
            value as usize,
        ),
        setting_id == SettingId::SequenceMs ==> r == SettingChange::StretchParameters(
            parameters.0,
            value,
            parameters.2 as i32,
            parameters.3 as i32,
        ),
        setting_id == SettingId::SeekWindowMs ==> r == SettingChange::StretchParameters(
            parameters.0,
            parameters.1 as i32,
            value,
            parameters.3 as i32,
        ),
        setting_id == SettingId::OverlapMs ==> r == SettingChange::StretchParameters(
            parameters.0,
            parameters.1 as i32,
            parameters.2 as i32,
            value,
        ),
        r == SettingChange::ReadOnly <==> (setting_id == SettingId::NominalInputSequence
            || setting_id == SettingId::NominalOutputSequence || setting_id
            == SettingId::InitialLatency),
{
    let (sample_rate, sequence_ms, seek_window_ms, overlap_ms) = parameters;
    match setting_id {
        SettingId::UseAAFilter => SettingChange::UseAAFilter(value != 0),
        SettingId::AAFilterLength => SettingChange::AAFilterLength(value as usize),
        SettingId::UseQuickSeek => SettingChange::UseQuickSeek(value != 0),
        SettingId::SequenceMs => SettingChange::StretchParameters(
            sample_rate,
            value,
            seek_window_ms as i32,
            overlap_ms as i32,
        ),
        SettingId::SeekWindowMs => SettingChange::StretchParameters(
            sample_rate,
            sequence_ms as i32,
            value,
            overlap_ms as i32,
        ),
        SettingId::OverlapMs => SettingChange::StretchParameters(
            sample_rate,
            sequence_ms as i32,
            seek_window_ms as i32,
            value,
        ),
        _ => SettingChange::ReadOnly,
    }
}

/// The value that reading setting `setting_id` gives, for the settings
/// that do not depend on the playback rate; `None` for the three sizes and
/// the latency, which do.
pub open spec fn setting_value_spec(
    setting_id: SettingId,
    aa_filter_enabled: bool,
    aa_filter_length: usize,
    quick_seek: bool,
    parameters: (u32, usize, usize, usize),
) -> Option<i32> {
    let (_sample_rate, sequence_ms, seek_window_ms, overlap_ms) = parameters;
    match setting_id {
        SettingId::UseAAFilter => Some(
            if aa_filter_enabled {
                1i32
            } else {
                0i32
            },
        ),
        SettingId::AAFilterLength => Some(aa_filter_length as i32),
        SettingId::UseQuickSeek => Some(
            if quick_seek {
                1i32
            } else {
                0i32
            },
        ),
        SettingId::SequenceMs => Some(sequence_ms as i32),
        SettingId::SeekWindowMs => Some(seek_window_ms as i32),
        SettingId::OverlapMs => Some(overlap_ms as i32),
        _ => None,
    }
}

/// The value that reading setting `setting_id` gives (see
/// `setting_value_spec`).
pub fn setting_value(
    setting_id: SettingId,
    aa_filter_enabled: bool,
    aa_filter_length: usize,
    quick_seek: bool,
    parameters: (u32, usize, usize, usize),
) -> (r: Option<i32>)
    ensures
        r == setting_value_spec(
            setting_id,
            aa_filter_enabled,
            aa_filter_length,
            quick_seek,
            parameters,
        ),
        setting_id == SettingId::UseAAFilter ==> r == Some(
            if aa_filter_enabled {
                1i32
            } else {
                0i32
            },
        ),
        setting_id == SettingId::UseQuickSeek ==> r == Some(
            if quick_seek {
                1i32
            } else {
                0i32
            },
        ),
        setting_id == SettingId::AAFilterLength ==> r == Some(aa_filter_length as i32),
        setting_id == SettingId::SequenceMs ==> r == Some(parameters.1 as i32),
        setting_id == SettingId::SeekWindowMs ==> r == Some(parameters.2 as i32),
        setting_id == SettingId::OverlapMs ==> r == Some(parameters.3 as i32),
{
    let (_sample_rate, sequence_ms, seek_window_ms, overlap_ms) = parameters;
    match setting_id {
        SettingId::UseAAFilter => Some(
            if aa_filter_enabled {
                1
            } else {
                0
            },
        ),
        SettingId::AAFilterLength => Some(aa_filter_length as i32),
        SettingId::UseQuickSeek => Some(
            if quick_seek {
                1
            } else {
                0
            },
        ),
        SettingId::SequenceMs => Some(sequence_ms as i32),
        SettingId::SeekWindowMs => Some(seek_window_ms as i32),
        SettingId::OverlapMs => Some(overlap_ms as i32),
        _ => None,
    }
}

/// The time stretcher's parameters in the form `get_parameters` returns them.
pub open spec fn parameters_as_reported(settings: TDStretchSettings) -> (u32, usize, usize, usize) {
    let (sr, seq, seek, ovl) = settings.reported_parameters();
    (sr, seq as usize, seek as usize, ovl as usize)
}

/// A time-stretch length written as a setting is the one read back, and the
/// other parameters keep their values: writing `value > 0` to the sequence,
/// seek window or overlap setting, then reading the same setting, gives
/// `value`.
pub proof fn law_setting_read_back(
    settings: TDStretchSettings,
    setting_id: SettingId,
    value: i32,
    aa_filter_enabled: bool,
    aa_filter_length: usize,
    quick_seek: bool,
)
    requires
        settings.wf(),
        value > 0,
        setting_id == SettingId::SequenceMs || setting_id == SettingId::SeekWindowMs
            || setting_id == SettingId::OverlapMs,
    ensures
        ({
            let before = parameters_as_reported(settings);
            match setting_change_spec(setting_id, value, before) {
                SettingChange::StretchParameters(sr, seq, seek, ovl) => {
                    let after = settings.with_parameters(sr, seq, seek, ovl);
                    &&& after.wf()
                    &&& setting_value_spec(
                        setting_id,
                        aa_filter_enabled,
                        aa_filter_length,
                        quick_seek,
                        parameters_as_reported(after),
                    ) == Some(value)
                    &&& after.sample_rate == settings.sample_rate
                    &&& setting_id != SettingId::SequenceMs ==> parameters_as_reported(after).1
                        == before.1
                    &&& setting_id != SettingId::SeekWindowMs ==> parameters_as_reported(after).2
                        == before.2
                    &&& setting_id != SettingId::OverlapMs ==> parameters_as_reported(after).3
                        == before.3
                },
                _ => false,
            }
        }),
{
}

/// Reading a flag setting gives 1 when that flag is on and 0 when it is
/// off, whatever the other flag is: the anti-alias setting reads the
/// anti-alias flag and the quick-seek setting reads the quick-seek flag;
/// the filter length and the three stretch lengths read their own values.
pub proof fn law_setting_value_reads_its_own_setting(
    aa_filter_enabled: bool,
    aa_filter_length: usize,
    quick_seek: bool,
    parameters: (u32, usize, usize, usize),
)
    ensures
        setting_value_spec(
            SettingId::UseAAFilter,
            aa_filter_enabled,
            aa_filter_length,
            quick_seek,
            parameters,
        ) == Some(
            if aa_filter_enabled {
                1i32
            } else {
                0i32
            },
        ),
        setting_value_spec(
            SettingId::UseQuickSeek,
            aa_filter_enabled,
            aa_filter_length,
            quick_seek,
            parameters,
        ) == Some(
            if quick_seek {
                1i32
            } else {
                0i32
            },
        ),
        setting_value_spec(
            SettingId::UseAAFilter,
            aa_filter_enabled,
            aa_filter_length,
            !quick_seek,
            parameters,
        ) == setting_value_spec(
            SettingId::UseAAFilter,
            aa_filter_enabled,
            aa_filter_length,
            quick_seek,
            parameters,
        ),
        setting_value_spec(
            SettingId::AAFilterLength,
            aa_filter_enabled,
            aa_filter_length,
            quick_seek,
            parameters,
        ) == Some(aa_filter_length as i32),
        setting_value_spec(
            SettingId::SequenceMs,
            aa_filter_enabled,
            aa_filter_length,
            quick_seek,
            parameters,
        ) == Some(parameters.1 as i32),
        setting_value_spec(
            SettingId::SeekWindowMs,
            aa_filter_enabled,
            aa_filter_length,
            quick_seek,
            parameters,
        ) == Some(parameters.2 as i32),
        setting_value_spec(
            SettingId::OverlapMs,
            aa_filter_enabled,
            aa_filter_length,
            quick_seek,
            parameters,
        ) == Some(parameters.3 as i32),
{
}

/// Writing a flag setting turns the flag on exactly for a non-zero value:
/// 0 switches quick seeking (or the anti-alias filter) off, any other value
/// switches it on. The filter length is taken as given.
pub proof fn law_setting_change_flags_follow_value(
    value: i32,
    parameters: (u32, usize, usize, usize),
)
    ensures
        setting_change_spec(SettingId::UseQuickSeek, value, parameters)
            == SettingChange::UseQuickSeek(value != 0),
        setting_change_spec(SettingId::UseAAFilter, value, parameters)
            == SettingChange::UseAAFilter(value != 0),
        setting_change_spec(SettingId::UseQuickSeek, 0, parameters)
            == SettingChange::UseQuickSeek(false),
        setting_change_spec(SettingId::UseAAFilter, 0, parameters)
            == SettingChange::UseAAFilter(false),
        value != 0 ==> setting_change_spec(SettingId::UseQuickSeek, value, parameters)
            == SettingChange::UseQuickSeek(true),
        value != 0 ==> setting_change_spec(SettingId::UseAAFilter, value, parameters)
            == SettingChange::UseAAFilter(true),
        setting_change_spec(SettingId::AAFilterLength, value, parameters)
            == SettingChange::AAFilterLength(value as usize),
{
}

} // verus!
