//! Settings and sample bookkeeping of the time-domain stretcher.
//!
//! The stretcher cuts the input into overlapping sequences and glues them
//! back together at a different pace. This module holds its integer state:
//! the sample rate, the sequence / seek-window / overlap lengths in
//! milliseconds (or automatic), the derived lengths in samples and the number
//! of input samples a processing step needs.

use vstd::prelude::*;

use crate::aligned_buffer::{fits_in_memory, grown_capacity, AlignedSampleVec};
use crate::error::SoundTouchError;
use crate::fifo_buffer::FIFOSampleBuffer;
use crate::types::{check_channels, valid_channels};

verus! {

/// Highest sample rate the stretcher accepts.
pub const MAX_SAMPLE_RATE: u32 = 192000;

/// Shortest overlap length in samples.
pub const MIN_OVERLAP_SAMPLES: usize = 16;

/// `sample_rate * ms / 1000`: a length in milliseconds as a number of samples.
pub open spec fn ms_to_samples(sample_rate: u32, ms: i32) -> int {
    (sample_rate as int * ms as int) / 1000
}

/// Whether a length of `ms` milliseconds at `sample_rate` can be computed in
/// `usize` arithmetic.
pub open spec fn ms_fits(sample_rate: u32, ms: i32) -> bool {
    0 <= ms && sample_rate as int * ms as int <= usize::MAX
}

/// The overlap length in samples for an overlap of `overlap_ms`
/// milliseconds: at least 16, else rounded down to a multiple of 8.
pub open spec fn overlap_samples(sample_rate: u32, overlap_ms: i32) -> int {
    let n = ms_to_samples(sample_rate, overlap_ms);
    if n < 16 {
        16
    } else {
        n - n % 8
    }
}

/// Integer state of the time-domain stretcher.
pub struct TDStretchSettings {
    /// Number of channels.
    pub channels: usize,
    /// Sample rate.
    pub sample_rate: u32,
    /// Sequence length in milliseconds.
    pub sequence_ms: i32,
    /// Seek window length in milliseconds.
    pub seek_window_ms: i32,
    /// Overlap length in milliseconds.
    pub overlap_ms: i32,
    /// Overlap length in samples.
    pub overlap_length: usize,
    /// Seek length in samples.
    pub seek_length: usize,
    /// Seek window (sequence) length in samples.
    pub seek_window_length: usize,
    /// Input samples a processing step needs.
    pub sample_req: usize,
    /// Quick seek enabled.
    pub quick_seek: bool,
    /// The sequence length follows the tempo.
    pub auto_seq_setting: bool,
    /// The seek window length follows the tempo.
    pub auto_seek_setting: bool,
}

impl TDStretchSettings {
    /// The settings are usable: a supported channel count and sample rate,
    /// lengths in milliseconds that are not negative (positive where they
    /// were set rather than computed), and a positive overlap.
    pub open spec fn wf(&self) -> bool {
        &&& valid_channels(self.channels)
        &&& 0 < self.sample_rate <= MAX_SAMPLE_RATE
        &&& self.sequence_ms >= 0
        &&& self.seek_window_ms >= 0
        &&& !self.auto_seq_setting ==> self.sequence_ms > 0
        &&& !self.auto_seek_setting ==> self.seek_window_ms > 0
        &&& self.overlap_ms > 0
    }

    /// The settings of a fresh stretcher: stereo at 44100 Hz, sequences of
    /// 82 ms, seek windows of 28 ms, overlaps of 12 ms, both lengths
    /// automatic, quick seek off and no length in samples computed yet.
    pub fn new() -> (r: Self)
        ensures
            r.wf(),
            r.channels == 2,
            r.sample_rate == 44100,
            r.sequence_ms == 82,
            r.seek_window_ms == 28,
            r.overlap_ms == 12,
            r.overlap_length == 0,
            r.seek_length == 0,
            r.seek_window_length == 0,
            r.sample_req == 0,
            !r.quick_seek,
            r.auto_seq_setting,
            r.auto_seek_setting,
    {
        TDStretchSettings {
            channels: 2,
            sample_rate: 44100,
            sequence_ms: 82,
            seek_window_ms: 28,
            overlap_ms: 12,
            overlap_length: 0,
            seek_length: 0,
            seek_window_length: 0,
            sample_req: 0,
            quick_seek: false,
            auto_seq_setting: true,
            auto_seek_setting: true,
        }
    }

    /// Sets the number of channels. A count outside 1 ..= `MAX_CHANNELS` is
    /// refused; an unchanged count gives `Ok(false)`; a new count gives
    /// `Ok(true)` and resets the overlap length, which the caller then
    /// computes anew.
    pub fn set_channels(&mut self, num_channels: usize) -> (r: Result<bool, SoundTouchError>)
        ensures
            old(self).wf() ==> final(self).wf(),
            r is Ok <==> valid_channels(num_channels),
            !valid_channels(num_channels) ==> r == Err::<bool, SoundTouchError>(
                SoundTouchError::InvalidChannels(num_channels as u32),
            ) && *final(self) == *old(self),
            r == Ok::<bool, SoundTouchError>(false) ==> *final(self) == *old(self)
                && num_channels == old(self).channels,
            r == Ok::<bool, SoundTouchError>(true) ==> *final(self) == (TDStretchSettings {
                channels: num_channels,
                overlap_length: 0,
                ..*old(self)
            }) && num_channels != old(self).channels,
    {
        match check_channels(num_channels) {
            Err(e) => {
                return Err(e);
            },
            Ok(()) => {},
        }
        if self.channels == num_channels {
            return Ok(false);
        }
        self.channels = num_channels;
        self.overlap_length = 0;
        Ok(true)
    }

    /// These settings after taking a new sample rate and lengths in
    /// milliseconds (see `set_parameters`).
    pub open spec fn with_parameters(
        self,
        sample_rate: u32,
        sequence_ms: i32,
        seek_window_ms: i32,
        overlap_ms: i32,
    ) -> TDStretchSettings {
        TDStretchSettings {
            sample_rate: if sample_rate > 0 {
                sample_rate
            } else {
                self.sample_rate
            },
            overlap_ms: if overlap_ms > 0 {
                overlap_ms
            } else {
                self.overlap_ms
            },
            sequence_ms: if sequence_ms > 0 {
                sequence_ms
            } else {
                self.sequence_ms
            },
            auto_seq_setting: if sequence_ms > 0 {
                false
            } else if sequence_ms == 0 {
                true
            } else {
                self.auto_seq_setting
            },
            seek_window_ms: if seek_window_ms > 0 {
                seek_window_ms
            } else {
                self.seek_window_ms
            },
            auto_seek_setting: if seek_window_ms > 0 {
                false
            } else if seek_window_ms == 0 {
                true
            } else {
                self.auto_seek_setting
            },
            ..self
        }
    }

    /// The parameters as reported: sample rate, sequence, seek window and
    /// overlap lengths in milliseconds, an automatic length reported as 0.
    pub open spec fn reported_parameters(self) -> (u32, int, int, int) {
        (
            self.sample_rate,
            if self.auto_seq_setting {
                0
            } else {
                self.sequence_ms as int
            },
            if self.auto_seek_setting {
                0
            } else {
                self.seek_window_ms as int
            },
            self.overlap_ms as int,
        )
    }

    /// Takes new sample rate and lengths in milliseconds. A rate of 0 keeps
    /// the current one; a positive length replaces the current one and, for
    /// the sequence and seek window, turns its automatic setting off; a
    /// length of 0 turns the automatic setting on; a negative length keeps
    /// the current setting.
    pub fn set_parameters(
        &mut self,
        sample_rate: u32,
        sequence_ms: i32,
        seek_window_ms: i32,
        overlap_ms: i32,
    )
        requires
            old(self).wf(),
            sample_rate <= MAX_SAMPLE_RATE,
        ensures
            final(self).wf(),
            *final(self) == old(self).with_parameters(
                sample_rate,
                sequence_ms,
                seek_window_ms,
                overlap_ms,
            ),
            sequence_ms == 0 ==> final(self).auto_seq_setting,
            seek_window_ms == 0 ==> final(self).auto_seek_setting,
            sequence_ms > 0 ==> !final(self).auto_seq_setting && final(self).sequence_ms
                == sequence_ms,
            seek_window_ms > 0 ==> !final(self).auto_seek_setting && final(self).seek_window_ms
                == seek_window_ms,
            sequence_ms < 0 ==> final(self).auto_seq_setting == old(self).auto_seq_setting
                && final(self).sequence_ms == old(self).sequence_ms,
            seek_window_ms < 0 ==> final(self).auto_seek_setting == old(self).auto_seek_setting
                && final(self).seek_window_ms == old(self).seek_window_ms,
            final(self).sample_rate == if sample_rate > 0 {
                sample_rate
            } else {
                old(self).sample_rate
            },
            final(self).overlap_ms == if overlap_ms > 0 {
                overlap_ms
            } else {
                old(self).overlap_ms
            },
    {
        if sample_rate > 0 {
            self.sample_rate = sample_rate;
        }
        if overlap_ms > 0 {
            self.overlap_ms = overlap_ms;
        }
        if sequence_ms > 0 {
            self.sequence_ms = sequence_ms;
            self.auto_seq_setting = false;
        } else if sequence_ms == 0 {
            self.auto_seq_setting = true;
        }
        if seek_window_ms > 0 {
            self.seek_window_ms = seek_window_ms;
            self.auto_seek_setting = false;
        } else if seek_window_ms == 0 {
            self.auto_seek_setting = true;
        }
    }

    /// The sample rate and the sequence, seek window and overlap lengths in
    /// milliseconds, an automatic length being reported as 0.
    pub fn get_parameters(&self) -> (r: (u32, usize, usize, usize))
        requires
            self.wf(),
        ensures
            (r.0, r.1 as int, r.2 as int, r.3 as int) == self.reported_parameters(),
    {
        let seq_ms = if self.auto_seq_setting {
            0
        } else {
            self.sequence_ms as usize
        };
        let seek_ms = if self.auto_seek_setting {
            0
        } else {
            self.seek_window_ms as usize
        };
        (self.sample_rate, seq_ms, seek_ms, self.overlap_ms as usize)
    }

    /// Whether quick seeking is used.
    pub fn enable_quick_seek(&mut self, enable: bool)
        ensures
            *final(self) == (TDStretchSettings { quick_seek: enable, ..*old(self) }),
    {
        self.quick_seek = enable;
    }

    /// Whether quick seeking is used.
    pub fn is_quick_seek_enabled(&self) -> (r: bool)
        ensures
            r == self.quick_seek,
    {
        self.quick_seek
    }

    /// Updates the sequence and seek window lengths: an automatic length
    /// takes the value given for it (computed from the tempo), then both are
    /// converted to samples; the sequence is at least two overlaps long.
    pub fn calc_seq_lengths(&mut self, auto_sequence_ms: i32, auto_seek_window_ms: i32)
        requires
            old(self).wf(),
            auto_sequence_ms >= 0,
            auto_seek_window_ms >= 0,
            ms_fits(
                old(self).sample_rate,
                if old(self).auto_seq_setting {
                    auto_sequence_ms
                } else {
                    old(self).sequence_ms
                },
            ),
            ms_fits(
                old(self).sample_rate,
                if old(self).auto_seek_setting {
                    auto_seek_window_ms
                } else {
                    old(self).seek_window_ms
                },
            ),
            2 * old(self).overlap_length <= usize::MAX,
        ensures
            final(self).wf(),
            final(self).sequence_ms == if old(self).auto_seq_setting {
                auto_sequence_ms
            } else {
                old(self).sequence_ms
            },
            final(self).seek_window_ms == if old(self).auto_seek_setting {
                auto_seek_window_ms
            } else {
                old(self).seek_window_ms
            },
            final(self).seek_window_length == if ms_to_samples(
                final(self).sample_rate,
                final(self).sequence_ms,
            ) < 2 * old(self).overlap_length {
                2 * old(self).overlap_length
            } else {
                ms_to_samples(final(self).sample_rate, final(self).sequence_ms)
            },
            final(self).seek_length == ms_to_samples(
                final(self).sample_rate,
                final(self).seek_window_ms,
            ),
            final(self).seek_window_length >= 2 * final(self).overlap_length,
            final(self).sample_rate == old(self).sample_rate,
            final(self).channels == old(self).channels,
            final(self).overlap_ms == old(self).overlap_ms,
            final(self).overlap_length == old(self).overlap_length,
            final(self).sample_req == old(self).sample_req,
            final(self).quick_seek == old(self).quick_seek,
            final(self).auto_seq_setting == old(self).auto_seq_setting,
            final(self).auto_seek_setting == old(self).auto_seek_setting,
    {
        if self.auto_seq_setting {
            self.sequence_ms = auto_sequence_ms;
        }
        if self.auto_seek_setting {
            self.seek_window_ms = auto_seek_window_ms;
        }
        proof {
            let sr = self.sample_rate as int;
            let a = self.sequence_ms as int;
            let b = self.seek_window_ms as int;
            assert(sr * a >= 0) by (nonlinear_arith)
                requires
                    sr >= 0,
                    a >= 0,
            ;
            assert(sr * b >= 0) by (nonlinear_arith)
                requires
                    sr >= 0,
                    b >= 0,
            ;
        }
        let mut swl = (self.sample_rate as usize * self.sequence_ms as usize) / 1000;
        if swl < 2 * self.overlap_length {
            swl = 2 * self.overlap_length;
        }
        self.seek_window_length = swl;
        self.seek_length = (self.sample_rate as usize * self.seek_window_ms as usize) / 1000;
    }

    /// Sets the overlap length in samples for an overlap of `overlap_ms`
    /// milliseconds (a negative value changes nothing). Returns whether the
    /// overlap grew, so that the buffer that keeps the end of the previous
    /// sequence (`overlap_length * channels` samples) must be made anew.
    pub fn calculate_overlap_length(&mut self, overlap_ms: i32) -> (grew: bool)
        requires
            old(self).wf(),
            overlap_ms < 0 || ms_fits(old(self).sample_rate, overlap_ms),
        ensures
            final(self).wf(),
            overlap_ms < 0 ==> *final(self) == *old(self) && !grew,
            overlap_ms >= 0 ==> final(self).overlap_length == overlap_samples(
                old(self).sample_rate,
                overlap_ms,
            ) && grew == (final(self).overlap_length > old(self).overlap_length),
            overlap_ms >= 0 ==> *final(self) == (TDStretchSettings {
                overlap_length: final(self).overlap_length,
                ..*old(self)
            }),
            final(self).overlap_length >= MIN_OVERLAP_SAMPLES || overlap_ms < 0,
    {
        if overlap_ms < 0 {
            return false;
        }
        proof {
            let sr = self.sample_rate as int;
            let o = overlap_ms as int;
            assert(sr * o >= 0) by (nonlinear_arith)
                requires
                    sr >= 0,
                    o >= 0,
            ;
        }
        let mut new_ovl = (self.sample_rate as usize * overlap_ms as usize) / 1000;
        if new_ovl < 16 {
            new_ovl = 16;
        } else {
            new_ovl = new_ovl - new_ovl % 8;
        }
        let prev_ovl = self.overlap_length;
        self.overlap_length = new_ovl;
        new_ovl > prev_ovl
    }

    /// Sets the number of input samples a processing step needs from the
    /// rounded nominal skip `int_skip`: the larger of the skip plus one
    /// overlap and one sequence, plus the seek length.
    pub fn set_sample_requirement(&mut self, int_skip: i32)
        requires
            old(self).overlap_length <= i32::MAX,
            old(self).seek_window_length <= i32::MAX,
            i32::MIN <= int_skip + old(self).overlap_length <= i32::MAX,
            (if int_skip + old(self).overlap_length > old(self).seek_window_length {
                int_skip + old(self).overlap_length
            } else {
                old(self).seek_window_length as int
            }) + old(self).seek_length <= usize::MAX,
        ensures
            final(self).sample_req == if int_skip + old(self).overlap_length
                > old(self).seek_window_length {
                int_skip + old(self).overlap_length + old(self).seek_length
            } else {
                old(self).seek_window_length + old(self).seek_length
            },
            *final(self) == (TDStretchSettings { sample_req: final(self).sample_req, ..*old(self) }),
    {
        let a: i32 = int_skip + self.overlap_length as i32;
        let b: i32 = self.seek_window_length as i32;
        let m: i32 = if a > b {
            a
        } else {
            b
        };
        self.sample_req = m as usize + self.seek_length;
    }

    /// Nominal number of output samples per processing step: one sequence
    /// less one overlap.
    pub fn get_output_batch_size(&self) -> (r: usize)
        requires
            self.overlap_length <= self.seek_window_length,
        ensures
            r == self.seek_window_length - self.overlap_length,
    {
        self.seek_window_length - self.overlap_length
    }

    /// Processing latency in samples: the input a processing step needs.
    pub fn get_latency(&self) -> (r: usize)
        ensures
            r == self.sample_req,
    {
        self.sample_req
    }
}

/// Emits one sequence of the stretched output: appends to `output` the
/// frames of `input` from frame `offset` on that come before the next
/// overlap (`seek_window_length - 2 * overlap_length` of them), and copies
/// the `overlap_length` frames after those to the start of `mid`, where the
/// next sequence is mixed in with them.
pub fn emit_sequence<T: Copy + Default>(
    seek_window_length: usize,
    overlap_length: usize,
    input: &FIFOSampleBuffer<T>,
    output: &mut FIFOSampleBuffer<T>,
    mid: &mut AlignedSampleVec<T>,
    offset: usize,
)
    requires
        input.wf(),
        old(output).wf(),
        old(mid).wf(),
        old(output).channels() == input.channels(),
        2 * overlap_length <= seek_window_length,
        offset + seek_window_length - overlap_length <= input.frames(),
        fits_in_memory::<T>(
            (old(output).frames() + seek_window_length - 2 * overlap_length) * input.channels(),
        ),
        overlap_length * input.channels() <= old(mid).cap() || fits_in_memory::<T>(
            overlap_length * input.channels(),
        ),
    ensures
        ({
            let ch = input.channels() as int;
            let temp = seek_window_length - 2 * overlap_length;
            let kept = input@.subrange((offset + temp) * ch, (offset + temp + overlap_length) * ch);
            &&& old(output).put_post(
                *final(output),
                input@.subrange(offset * ch, input@.len() as int),
                temp as nat,
            )
            &&& final(mid).wf()
            &&& final(mid)@.len() == if kept.len() > old(mid)@.len() {
                kept.len()
            } else {
                old(mid)@.len()
            }
            &&& final(mid)@.subrange(0, kept.len() as int) == kept
            &&& forall|i: int|
                kept.len() <= i < old(mid)@.len() ==> #[trigger] final(mid)@[i] == old(mid)@[i]
            &&& final(mid).cap() == if kept.len() > old(mid).cap() {
                grown_capacity::<T>(kept.len())
            } else {
                old(mid).cap()
            }
        }),
{
    proof {
        input.lemma_wf();
    }
    let ch = input.get_channels();
    let temp = seek_window_length - 2 * overlap_length;
    let data = input.ptr_begin();
    let n = data.len();
    proof {
        assert(n == input.frames() * input.channels());
        let f = input.frames() as int;
        let c = ch as int;
        let o = offset as int;
        let t = temp as int;
        let v = overlap_length as int;
        assert(o * c + t * c + v * c == (o + t + v) * c) by (nonlinear_arith);
        assert((o + t + v) * c <= f * c) by (nonlinear_arith)
            requires
                o + t + v <= f,
                c >= 0,
        ;
        assert(o * c >= 0 && t * c >= 0 && v * c >= 0) by (nonlinear_arith)
            requires
                o >= 0,
                t >= 0,
                v >= 0,
                c >= 0,
        ;
        assert(f * c - o * c >= t * c) by (nonlinear_arith)
            requires
                o + t <= f,
                c >= 0,
        ;
        assert((o + t) * c <= (o + t + v) * c) by (nonlinear_arith)
            requires
                v >= 0,
                c >= 0,
        ;
    }
    let start = offset * ch;
    let tail = vstd::slice::slice_subrange(data, start, n);
    output.put_samples(tail, temp);
    proof {
        let a = offset + temp;
        assert(a <= a * ch) by (nonlinear_arith)
            requires
                ch >= 1,
                a >= 0,
        ;
    }
    let kept_start = (offset + temp) * ch;
    let kept_len = overlap_length * ch;
    proof {
        assert(kept_start + kept_len == (offset + temp + overlap_length) * ch) by (nonlinear_arith)
            requires
                kept_start == (offset + temp) * ch,
                kept_len == overlap_length * ch,
        ;
    }
    let kept = vstd::slice::slice_subrange(data, kept_start, kept_start + kept_len);
    mid.copy_from_slice_at(0, kept);
    proof {
        assert(mid@.subrange(0, kept@.len() as int) =~= kept@);
    }
}

/// Parameters given with positive values are the ones read back: after
/// `set_parameters` with a positive sample rate and positive lengths,
/// `get_parameters` reports exactly those values.
pub proof fn law_parameters_read_back(
    settings: TDStretchSettings,
    sample_rate: u32,
    sequence_ms: i32,
    seek_window_ms: i32,
    overlap_ms: i32,
)
    requires
        settings.wf(),
        0 < sample_rate <= MAX_SAMPLE_RATE,
        sequence_ms > 0,
        seek_window_ms > 0,
        overlap_ms > 0,
    ensures
        settings.with_parameters(
            sample_rate,
            sequence_ms,
            seek_window_ms,
            overlap_ms,
        ).reported_parameters() == (
            sample_rate,
            sequence_ms as int,
            seek_window_ms as int,
            overlap_ms as int,
        ),
{
}

/// Each length's automatic flag depends on its own argument alone: a 0
/// makes it automatic, a positive length fixes it, a negative one keeps it,
/// whatever the sample rate and the other arguments are; the sample rate
/// and the overlap change only for positive arguments.
pub proof fn law_each_parameter_follows_its_own_argument(
    settings: TDStretchSettings,
    sample_rate: u32,
    sequence_ms: i32,
    seek_window_ms: i32,
    overlap_ms: i32,
)
    ensures
        ({
            let after = settings.with_parameters(sample_rate, sequence_ms, seek_window_ms, overlap_ms);
            &&& sequence_ms == 0 ==> after.auto_seq_setting
            &&& seek_window_ms == 0 ==> after.auto_seek_setting
            &&& sequence_ms > 0 ==> !after.auto_seq_setting && after.sequence_ms == sequence_ms
            &&& seek_window_ms > 0 ==> !after.auto_seek_setting && after.seek_window_ms
                == seek_window_ms
            &&& sequence_ms < 0 ==> after.auto_seq_setting == settings.auto_seq_setting
                && after.sequence_ms == settings.sequence_ms
            &&& seek_window_ms < 0 ==> after.auto_seek_setting == settings.auto_seek_setting
                && after.seek_window_ms == settings.seek_window_ms
            &&& after.sample_rate == (if sample_rate > 0 {
                sample_rate
            } else {
                settings.sample_rate
            })
            &&& after.overlap_ms == (if overlap_ms > 0 {
                overlap_ms
            } else {
                settings.overlap_ms
            })
            &&& sequence_ms == 0 ==> after.reported_parameters().1 == 0
            &&& seek_window_ms == 0 ==> after.reported_parameters().2 == 0
        }),
{
}

/// Giving back the reported parameters changes nothing: an automatic
/// length is reported as 0, which keeps it automatic, and a fixed length is
/// reported as itself. Changing one setting while passing the others as
/// reported therefore leaves the others as they were.
pub proof fn law_reported_parameters_are_fixed_point(settings: TDStretchSettings)
    requires
        settings.wf(),
    ensures
        ({
            let (sr, seq, seek, ovl) = settings.reported_parameters();
            settings.with_parameters(sr, seq as i32, seek as i32, ovl as i32) == settings
        }),
{
}

/// An automatic length stays automatic and a fixed one stays fixed when the
/// corresponding parameter is given as -1; a 0 makes it automatic.
pub proof fn law_negative_keeps_zero_automates(settings: TDStretchSettings)
    requires
        settings.wf(),
    ensures
        settings.with_parameters(0, -1i32, -1i32, -1i32) == settings,
        settings.with_parameters(0, 0, 0, -1i32).auto_seq_setting,
        settings.with_parameters(0, 0, 0, -1i32).auto_seek_setting,
        settings.with_parameters(0, 0, 0, -1i32).sequence_ms == settings.sequence_ms,
        settings.with_parameters(0, 0, 0, -1i32).seek_window_ms == settings.seek_window_ms,
{
}

} // verus!
