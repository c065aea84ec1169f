//! First-in-first-out sample buffer.
//!
//! Samples are stored interleaved: a frame holds one sample of each channel.
//! Samples put into the buffer are appended after the ones already there and
//! are received from the front, in the order they were put.

use vstd::prelude::*;

use crate::aligned_buffer::{
    fits_in_memory, grown_capacity, lemma_fits_in_memory, page_rounded, round_up_to_page,
    sample_bytes, sample_size, AlignedSampleVec,
};
use crate::error::SoundTouchError;
use crate::types::{check_channels, valid_channels, MAX_CHANNELS};

verus! {

/// `a <= s / d` whenever `a * d <= s`.
proof fn lemma_le_div(a: int, d: int, s: int)
    requires
        a >= 0,
        d >= 1,
        a * d <= s,
    ensures
        a <= s / d,
{
    vstd::arithmetic::div_mod::lemma_div_is_ordered(a * d, s, d);
    vstd::arithmetic::div_mod::lemma_div_by_multiple(a, d);
}

/// `a * d > s` whenever `a > s / d`.
proof fn lemma_le_div_contra(a: int, d: int, s: int)
    requires
        a >= 0,
        d >= 1,
        s >= 0,
        a > s / d,
    ensures
        a * d > s,
{
    vstd::arithmetic::div_mod::lemma_fundamental_div_mod(s, d);
    assert(a * d > s) by (nonlinear_arith)
        requires
            s == d * (s / d) + s % d,
            s % d < d,
            a >= s / d + 1,
            d >= 1,
    {
    }
}

/// `(s / d) * d <= s` for a positive divisor.
proof fn lemma_div_mul_le(s: int, d: int)
    requires
        s >= 0,
        d >= 1,
    ensures
        (s / d) * d <= s,
        s / d >= 0,
{
    vstd::arithmetic::div_mod::lemma_fundamental_div_mod(s, d);
    assert((s / d) * d <= s) by (nonlinear_arith)
        requires
            s == d * (s / d) + s % d,
            s % d >= 0,
    {
    }
    vstd::arithmetic::div_mod::lemma_div_pos_is_pos(s, d);
}

/// Frames that fit in `bytes` bytes stored as `channels` samples each also fit,
/// as samples, in the `bytes / sample size` samples of the allocation.
proof fn lemma_frames_in_samples(frames: int, channels: int, sb: int, bytes: int)
    requires
        frames >= 0,
        channels >= 1,
        sb >= 1,
        bytes >= 0,
        frames <= bytes / (channels * sb),
    ensures
        frames * channels <= bytes / sb,
{
    assert(channels * sb >= 1) by (nonlinear_arith)
        requires
            channels >= 1,
            sb >= 1,
    {
    }
    lemma_div_mul_le(bytes, channels * sb);
    vstd::arithmetic::mul::lemma_mul_inequality(frames, bytes / (channels * sb), channels * sb);
    assert(frames * (channels * sb) == (frames * channels) * sb) by (nonlinear_arith);
    lemma_le_div(frames * channels, sb, bytes);
}

/// Fewer samples than a number that fits in memory also fit.
proof fn lemma_fits_mono<T>(a: int, b: int)
    requires
        0 <= a <= b,
        fits_in_memory::<T>(b),
    ensures
        fits_in_memory::<T>(a),
{
    let sb = sample_bytes::<T>() as int;
    assert(a * sb <= b * sb) by (nonlinear_arith)
        requires
            a <= b,
            sb >= 0,
    ;
}

/// FIFO buffer of interleaved samples.
pub struct FIFOSampleBuffer<T> {
    /// The allocation; every sample of it is in use as storage.
    buffer: AlignedSampleVec<T>,
    /// Allocation size in bytes.
    size_in_bytes: usize,
    /// How many frames are currently in the buffer.
    samples_in_buffer: usize,
    /// Frame position of the first buffered frame in the allocation.
    buffer_pos: usize,
    /// Number of channels (1 = mono, 2 = stereo, ...).
    channels: usize,
    /// The value that silent samples have.
    silence: T,
}

impl<T: Copy + Default> View for FIFOSampleBuffer<T> {
    type V = Seq<T>;

    /// The buffered samples, interleaved, oldest first.
    closed spec fn view(&self) -> Seq<T> {
        self.buffer.storage().subrange(
            (self.buffer_pos * self.channels) as int,
            ((self.buffer_pos + self.samples_in_buffer) * self.channels) as int,
        )
    }
}

impl<T: Copy + Default> FIFOSampleBuffer<T> {
    /// The whole allocation, interleaved.
    pub closed spec fn storage(&self) -> Seq<T> {
        self.buffer.storage()
    }

    /// Frame position of the first buffered frame in the allocation.
    pub closed spec fn pos(&self) -> nat {
        self.buffer_pos as nat
    }

    /// Number of buffered frames.
    pub closed spec fn frames(&self) -> nat {
        self.samples_in_buffer as nat
    }

    /// Number of channels.
    pub closed spec fn channels(&self) -> nat {
        self.channels as nat
    }

    /// Allocation size in bytes.
    pub closed spec fn size_bytes(&self) -> nat {
        self.size_in_bytes as nat
    }

    /// The value of a silent sample.
    pub closed spec fn silence(&self) -> T {
        self.silence
    }

    /// Capacity of the allocation in whole frames.
    pub open spec fn capacity_frames(&self) -> nat {
        self.size_bytes() / (self.channels() * sample_bytes::<T>())
    }

    /// Internal consistency of the buffer.
    pub closed spec fn wf(&self) -> bool {
        &&& valid_channels(self.channels)
        &&& fits_in_memory::<T>(MAX_CHANNELS as int)
        &&& self.buffer.wf()
        &&& self.buffer@.len() == self.buffer.cap()
        &&& self.buffer.cap() == (self.size_in_bytes as nat) / sample_bytes::<T>()
        &&& self.buffer_pos + self.samples_in_buffer <= self.capacity_frames()
        &&& (self.buffer_pos + self.samples_in_buffer) * self.channels <= self.buffer.cap()
    }

    /// Facts that follow from well-formedness.
    pub proof fn lemma_wf(&self)
        requires
            self.wf(),
        ensures
            valid_channels(self.channels() as usize),
            self@.len() == self.frames() * self.channels(),
            self.pos() + self.frames() <= self.capacity_frames(),
            (self.pos() + self.frames()) * self.channels() <= self.storage().len(),
            self@ == self.storage().subrange(
                (self.pos() * self.channels()) as int,
                ((self.pos() + self.frames()) * self.channels()) as int,
            ),
    {
        self.lemma_layout();
    }

    proof fn lemma_layout(&self)
        requires
            self.wf(),
        ensures
            self.buffer_pos * self.channels + self.samples_in_buffer * self.channels == (
            self.buffer_pos + self.samples_in_buffer) * self.channels,
            self.buffer_pos * self.channels <= (self.buffer_pos + self.samples_in_buffer)
                * self.channels,
            self.channels * sample_bytes::<T>() <= usize::MAX,
            self.channels * sample_bytes::<T>() >= 1,
            self.buffer.storage().len() == self.buffer.cap(),
            self.buffer@ == self.buffer.storage(),
            (self.buffer_pos + self.samples_in_buffer) * self.channels <= self.buffer.storage().len(),
    {
        self.buffer.lemma_wf();
        assert(self.buffer@ =~= self.buffer.storage());
        let p = self.buffer_pos as int;
        let n = self.samples_in_buffer as int;
        let c = self.channels as int;
        assert(p * c + n * c == (p + n) * c) by (nonlinear_arith);
        assert(p * c <= (p + n) * c) by (nonlinear_arith)
            requires
                n >= 0,
                c >= 0,
        ;
        let s = sample_bytes::<T>() as int;
        assert(c * s <= (MAX_CHANNELS as int) * s) by (nonlinear_arith)
            requires
                c <= MAX_CHANNELS,
                s >= 0,
        ;
        assert(c * s >= 1) by (nonlinear_arith)
            requires
                c >= 1,
                s >= 1,
        ;
    }

    /// Creates an empty buffer for `num_channels` channels, with room for
    /// at least 32 frames; fails on a channel count outside 1 ..= `MAX_CHANNELS`.
    pub fn new(num_channels: usize) -> (r: Result<Self, SoundTouchError>)
        requires
            fits_in_memory::<T>(32 * MAX_CHANNELS),
        ensures
            r is Ok <==> valid_channels(num_channels),
            !valid_channels(num_channels) ==> r == Err::<Self, SoundTouchError>(
                SoundTouchError::InvalidChannels(num_channels as u32),
            ),
            r matches Ok(b) ==> {
                &&& b.wf()
                &&& b@ == Seq::<T>::empty()
                &&& b.frames() == 0
                &&& b.channels() == num_channels
                &&& b.capacity_frames() >= 32
                &&& b.size_bytes() == page_rounded((32 * num_channels * sample_bytes::<T>()) as nat)
            },
    {
        match check_channels(num_channels) {
            Err(e) => {
                return Err(e);
            },
            Ok(()) => {},
        }
        proof {
            let s = sample_bytes::<T>() as int;
            assert(MAX_CHANNELS * s <= 32 * MAX_CHANNELS * s) by (nonlinear_arith)
                requires
                    s >= 0,
            ;
        }
        let mut ret = FIFOSampleBuffer {
            buffer: AlignedSampleVec::new(0),
            size_in_bytes: 0,
            samples_in_buffer: 0,
            buffer_pos: 0,
            channels: num_channels,
            silence: T::default(),
        };
        proof {
            let s = sample_bytes::<T>() as int;
            assert(num_channels * s >= 1) by (nonlinear_arith)
                requires
                    num_channels >= 1,
                    s >= 1,
            ;
            assert(0int / s == 0);
            assert(0int / (num_channels * s) == 0) by (nonlinear_arith)
                requires
                    num_channels * s >= 1,
            ;
            ret.buffer.lemma_wf();
            assert((0 + 0) * num_channels == 0) by (nonlinear_arith);
            ret.lemma_layout();
            assert(32 * num_channels * s <= 32 * MAX_CHANNELS * s) by (nonlinear_arith)
                requires
                    num_channels <= MAX_CHANNELS,
                    s >= 0,
            ;
            assert(32 * num_channels * s == 32 * (num_channels * s)) by (nonlinear_arith);
        }
        ret.ensure_capacity(32);
        proof {
            assert(ret@ =~= Seq::<T>::empty());
        }
        Ok(ret)
    }

    /// Capacity of the allocation in whole frames.
    fn get_capacity(&self) -> (r: usize)
        requires
            self.wf(),
        ensures
            r == self.capacity_frames(),
    {
        proof {
            self.lemma_layout();
        }
        self.size_in_bytes / (self.channels * sample_size::<T>())
    }

    /// Where the buffered frames start once room for `capacity_samples`
    /// frames has been made.
    pub open spec fn room_pos(&self, capacity_samples: nat) -> nat {
        if self.pos() + capacity_samples <= self.capacity_frames() {
            self.pos()
        } else {
            0
        }
    }

    /// The allocation size in bytes once room for `capacity_samples` frames
    /// has been made: unchanged when they fit, else page-rounded.
    pub open spec fn room_size_bytes(&self, capacity_samples: nat) -> nat {
        if capacity_samples <= self.capacity_frames() {
            self.size_bytes()
        } else {
            page_rounded(capacity_samples * self.channels() * sample_bytes::<T>())
        }
    }

    /// `after` is this buffer once room for `capacity_samples` frames has
    /// been made: the buffered samples are kept; when they fit where they
    /// are nothing moves, when they fit in the allocation the buffered frames
    /// are moved to its start, else a page-rounded allocation takes their place.
    pub open spec fn made_room(&self, after: Self, capacity_samples: nat) -> bool {
        &&& after.wf()
        &&& after@ == self@
        &&& after.frames() == self.frames()
        &&& after.channels() == self.channels()
        &&& after.silence() == self.silence()
        &&& after.pos() == self.room_pos(capacity_samples)
        &&& after.size_bytes() == self.room_size_bytes(capacity_samples)
        &&& after.pos() + capacity_samples <= after.capacity_frames()
        &&& self.pos() + capacity_samples <= self.capacity_frames() ==> after.storage()
            == self.storage()
        &&& (capacity_samples <= self.capacity_frames() && self.capacity_frames() < self.pos()
            + capacity_samples) ==> {
            &&& after.storage().len() == self.storage().len()
            &&& after.storage().subrange(
                (self.frames() * self.channels()) as int,
                self.storage().len() as int,
            ) == self.storage().subrange(
                (self.frames() * self.channels()) as int,
                self.storage().len() as int,
            )
        }
    }

    /// Makes room for `capacity_samples` frames past the buffer position.
    fn ensure_capacity(&mut self, capacity_samples: usize)
        requires
            old(self).wf(),
            old(self).frames() <= capacity_samples,
            fits_in_memory::<T>(capacity_samples * old(self).channels()),
        ensures
            old(self).made_room(*final(self), capacity_samples as nat),
    {
        proof {
            self.lemma_layout();
        }
        let current_capacity = self.get_capacity();
        if capacity_samples > current_capacity {
            let s = sample_size::<T>();
            proof {
                let c = self.channels as int;
                let sb = s as int;
                assert(capacity_samples * c * sb == (capacity_samples * c) * sb);
                lemma_fits_in_memory::<T>(capacity_samples * c);
                assert(capacity_samples * c <= (capacity_samples * c) * sb) by (nonlinear_arith)
                    requires
                        sb >= 1,
                        capacity_samples * c >= 0,
                ;
            }
            let bytes_needed: usize = capacity_samples * self.channels * s;
            let new_size = round_up_to_page(bytes_needed);
            let new_capacity = new_size / s;
            let mut new_buffer = AlignedSampleVec::<T>::new(new_capacity);
            new_buffer.set_len(new_capacity);
            proof {
                new_buffer.lemma_wf();
            }
            proof {
                let c = self.channels as int;
                let sb = s as int;
                // room for the requested frames in the new allocation
                assert(bytes_needed <= new_size) by (nonlinear_arith)
                    requires
                        new_size == ((bytes_needed + 4095) / 4096) * 4096,
                        bytes_needed >= 0,
                ;
                assert(capacity_samples * (c * sb) == bytes_needed) by (nonlinear_arith)
                    requires
                        bytes_needed == capacity_samples * c * sb,
                ;
                assert(c * sb >= 1) by (nonlinear_arith)
                    requires
                        c >= 1,
                        sb >= 1,
                ;
                lemma_le_div(capacity_samples as int, c * sb, new_size as int);
                lemma_frames_in_samples(capacity_samples as int, c, sb, new_size as int);
            }
            let live = self.ptr_begin();
            proof {
                self.lemma_wf();
                assert(self.samples_in_buffer * self.channels <= capacity_samples * self.channels)
                    by (nonlinear_arith)
                    requires
                        self.samples_in_buffer <= capacity_samples,
                ;
                lemma_fits_mono::<T>(
                    self.samples_in_buffer * self.channels,
                    capacity_samples * self.channels,
                );
            }
            new_buffer.copy_from_slice_at(0, live);
            proof {
                new_buffer.lemma_wf();
                assert(new_buffer@.len() == new_capacity);
                assert(new_buffer.cap() == new_capacity);
                assert(new_buffer@ =~= new_buffer.storage());
                assert forall|i: int| 0 <= i < live@.len() implies new_buffer.storage()[i] == live@[i] by {
                    assert(new_buffer@[i] == live@[i - 0]);
                }
            }
            self.buffer = new_buffer;
            self.size_in_bytes = new_size;
            self.buffer_pos = 0;
            proof {
                let c = self.channels as int;
                assert(0 * c == 0);
                assert((0 + self.samples_in_buffer) * c == self.samples_in_buffer * c);
                self.lemma_layout();
                assert(self@ =~= old(self)@);
            }
        } else if capacity_samples > current_capacity - self.buffer_pos {
            self.rewind();
        }
    }

    /// Moves the buffered frames to the start of the allocation.
    fn rewind(&mut self)
        requires
            old(self).wf(),
        ensures
            final(self).wf(),
            final(self)@ == old(self)@,
            final(self).pos() == 0,
            final(self).frames() == old(self).frames(),
            final(self).channels() == old(self).channels(),
            final(self).size_bytes() == old(self).size_bytes(),
            final(self).silence() == old(self).silence(),
            final(self).storage().len() == old(self).storage().len(),
            final(self).storage().subrange(
                (old(self).frames() * old(self).channels()) as int,
                old(self).storage().len() as int,
            ) == old(self).storage().subrange(
                (old(self).frames() * old(self).channels()) as int,
                old(self).storage().len() as int,
            ),
            old(self).pos() == 0 ==> final(self).storage() == old(self).storage(),
    {
        proof {
            self.lemma_layout();
        }
        if self.buffer_pos == 0 {
            return;
        }
        if self.samples_in_buffer == 0 {
            self.buffer_pos = 0;
            proof {
                assert(self@ =~= old(self)@);
            }
            return;
        }
        let start = self.buffer_pos * self.channels;
        let count = self.samples_in_buffer * self.channels;
        let ghost olds = self.buffer.storage();
        self.buffer.copy_within(start..start + count, 0);
        self.buffer_pos = 0;
        proof {
            let c = self.channels as int;
            assert(0 * c == 0);
            assert((0 + self.samples_in_buffer) * c == count);
            self.lemma_layout();
            assert forall|i: int| 0 <= i < count implies self.buffer.storage()[i] == olds[start + i] by {
                assert(self.buffer.storage()[i] == olds[start + i]);
            }
            assert(self@ =~= old(self)@);
            assert forall|i: int| count <= i < olds.len() implies self.buffer.storage()[i] == olds[i] by {
                assert(self.buffer.storage()[i] == olds[i]);
            }
            assert(self.storage().subrange(count as int, self.storage().len() as int)
                =~= old(self).storage().subrange(count as int, old(self).storage().len() as int));
        }
    }

    /// Number of frames in the buffer.
    pub fn num_samples(&self) -> (r: usize)
        requires
            self.wf(),
        ensures
            r == self.frames(),
    {
        self.samples_in_buffer
    }

    /// Whether the buffer holds no frame.
    pub fn is_empty(&self) -> (r: bool)
        requires
            self.wf(),
        ensures
            r <==> self.frames() == 0,
            r <==> self@.len() == 0,
    {
        proof {
            self.lemma_wf();
            assert(self.channels() >= 1);
            assert(self.frames() * self.channels() == 0 ==> self.frames() == 0) by (nonlinear_arith)
                requires
                    self.channels() >= 1,
            ;
        }
        self.samples_in_buffer == 0
    }

    /// Number of channels.
    pub fn get_channels(&self) -> (r: usize)
        requires
            self.wf(),
        ensures
            r == self.channels(),
    {
        self.channels
    }

    /// The buffered samples, interleaved, oldest first.
    pub fn ptr_begin(&self) -> (r: &[T])
        requires
            self.wf(),
        ensures
            r@ == self@,
    {
        proof {
            self.lemma_layout();
        }
        let start = self.buffer_pos * self.channels;
        let count = self.samples_in_buffer * self.channels;
        let all = self.buffer.as_slice();
        let (_head, rest) = all.split_at(start);
        let (live, _tail) = rest.split_at(count);
        proof {
            assert(live@ =~= self@);
        }
        live
    }

    /// Frames that fit past the position also fit, as samples, in the storage.
    proof fn lemma_room(&self, req: nat)
        requires
            self.wf(),
            self.pos() + req <= self.capacity_frames(),
        ensures
            (self.pos() + req) * self.channels() <= self.storage().len(),
            self.pos() * self.channels() + req * self.channels() == (self.pos() + req)
                * self.channels(),
            self.pos() * self.channels() + self.frames() * self.channels() == (self.pos()
                + self.frames()) * self.channels(),
    {
        self.lemma_layout();
        lemma_frames_in_samples(
            (self.pos() + req) as int,
            self.channels() as int,
            sample_bytes::<T>() as int,
            self.size_bytes() as int,
        );
        let p = self.pos() as int;
        let c = self.channels() as int;
        let r = req as int;
        assert(p * c + r * c == (p + r) * c) by (nonlinear_arith);
    }

    /// `after` is this buffer with the first `num * channels` samples of
    /// `samples` appended, room having been made as `made_room` says.
    pub open spec fn put_post(&self, after: Self, samples: Seq<T>, num: nat) -> bool {
        &&& after.wf()
        &&& after@ == self@ + samples.subrange(0, (num * self.channels()) as int)
        &&& after.frames() == self.frames() + num
        &&& after.channels() == self.channels()
        &&& after.silence() == self.silence()
        &&& after.pos() == self.room_pos(self.frames() + num)
        &&& after.size_bytes() == self.room_size_bytes(self.frames() + num)
    }

    /// Appends the first `num_samples` frames of `samples`.
    pub fn put_samples(&mut self, samples: &[T], num_samples: usize)
        requires
            old(self).wf(),
            samples@.len() >= num_samples * old(self).channels(),
            fits_in_memory::<T>((old(self).frames() + num_samples) * old(self).channels()),
        ensures
            old(self).put_post(*final(self), samples@, num_samples as nat),
    {
        proof {
            self.lemma_layout();
            let c = self.channels as int;
            lemma_fits_in_memory::<T>((self.frames() + num_samples) * c);
            assert(self.frames() + num_samples <= (self.frames() + num_samples) * c) by (nonlinear_arith)
                requires
                    c >= 1,
                    self.frames() + num_samples >= 0,
            ;
        }
        let req = self.samples_in_buffer + num_samples;
        self.ensure_capacity(req);
        let ghost mid = *self;
        proof {
            self.lemma_room(req as nat);
            let p = self.pos() as int;
            let n = self.frames() as int;
            let c = self.channels() as int;
            assert((p + n) * c + num_samples * c == (p + req) * c) by (nonlinear_arith)
                requires
                    req == n + num_samples,
            ;
        }
        let start_idx = (self.buffer_pos + self.samples_in_buffer) * self.channels;
        let count = num_samples * self.channels;
        let (part, _rest) = samples.split_at(count);
        self.buffer.copy_from_slice_at(start_idx, part);
        self.samples_in_buffer = req;
        proof {
            self.buffer.lemma_wf();
            self.lemma_layout();
            let p = self.pos() as int;
            let c = self.channels() as int;
            let n0 = mid.frames() as int;
            assert(p * c + n0 * c == start_idx) by (nonlinear_arith)
                requires
                    start_idx == (p + n0) * c,
            ;
            assert(self.buffer.storage() =~= self.buffer@);
            mid.buffer.lemma_wf();
            assert(mid.buffer.storage() =~= mid.buffer@);
            assert(self@ =~= old(self)@ + samples@.subrange(0, count as int)) by {
                assert forall|i: int| 0 <= i < self@.len() implies #[trigger] self@[i] == (old(self)@
                    + samples@.subrange(0, count as int))[i] by {
                    let k = p * c + i;
                    if i < n0 * c {
                        assert(self.buffer@[k] == mid.buffer@[k]);
                    } else {
                        assert(self.buffer@[k] == part@[k - start_idx]);
                    }
                }
            }
        }
    }

    /// `after` is this buffer with `num` more frames, whose samples are
    /// what the storage past the buffered frames holds once room has been
    /// made (see `made_room`).
    pub open spec fn put_no_copy_post(&self, after: Self, num: nat) -> bool {
        &&& after.wf()
        &&& after.frames() == self.frames() + num
        &&& after.channels() == self.channels()
        &&& after.silence() == self.silence()
        &&& after.pos() == self.room_pos(self.frames() + num)
        &&& after.size_bytes() == self.room_size_bytes(self.frames() + num)
        &&& after@.subrange(0, self@.len() as int) == self@
        &&& self.pos() + self.frames() + num <= self.capacity_frames() ==> after.storage()
            == self.storage()
        &&& (self.frames() + num <= self.capacity_frames() && self.capacity_frames() < self.pos()
            + self.frames() + num) ==> {
            &&& after.storage().len() == self.storage().len()
            &&& after.storage().subrange(
                (self.frames() * self.channels()) as int,
                self.storage().len() as int,
            ) == self.storage().subrange(
                (self.frames() * self.channels()) as int,
                self.storage().len() as int,
            )
        }
    }

    /// Appends `num_samples` frames whose samples are whatever the storage
    /// past the buffered frames holds (typically written through `ptr_end`).
    pub fn put_samples_no_copy(&mut self, num_samples: usize)
        requires
            old(self).wf(),
            fits_in_memory::<T>((old(self).frames() + num_samples) * old(self).channels()),
        ensures
            old(self).put_no_copy_post(*final(self), num_samples as nat),
    {
        proof {
            self.lemma_layout();
            let c = self.channels as int;
            lemma_fits_in_memory::<T>((self.frames() + num_samples) * c);
            assert(self.frames() + num_samples <= (self.frames() + num_samples) * c) by (nonlinear_arith)
                requires
                    c >= 1,
                    self.frames() + num_samples >= 0,
            ;
        }
        let req = self.samples_in_buffer + num_samples;
        self.ensure_capacity(req);
        let ghost mid = *self;
        proof {
            mid.lemma_room(req as nat);
            mid.lemma_layout();
            let c = mid.channels() as int;
            let n = mid.frames() as int;
            assert(n * c <= req * c) by (nonlinear_arith)
                requires
                    n <= req,
                    c >= 0,
            ;
        }
        self.samples_in_buffer = req;
        proof {
            self.lemma_layout();
            assert(self@.subrange(0, old(self)@.len() as int) =~= old(self)@);
        }
    }

    /// `after` is this buffer with its first `num` frames removed.
    pub open spec fn receive_post(&self, after: Self, num: nat) -> bool {
        &&& after.wf()
        &&& after@ == self@.subrange((num * self.channels()) as int, self@.len() as int)
        &&& after.frames() == self.frames() - num
        &&& after.channels() == self.channels()
        &&& after.silence() == self.silence()
        &&& after.pos() == self.pos() + num
        &&& after.size_bytes() == self.size_bytes()
        &&& after.storage() == self.storage()
    }

    /// The number of frames a receive of at most `max_samples` frames takes.
    pub open spec fn received_count(&self, max_samples: nat) -> nat {
        if max_samples < self.frames() {
            max_samples
        } else {
            self.frames()
        }
    }

    /// Moves up to `max_samples` frames from the front of the buffer into
    /// `output`, and returns how many it moved.
    pub fn receive_samples(&mut self, output: &mut [T], max_samples: usize) -> (num: usize)
        requires
            old(self).wf(),
            old(output)@.len() >= old(self).received_count(max_samples as nat) * old(
                self,
            ).channels(),
        ensures
            num == old(self).received_count(max_samples as nat),
            old(self).receive_post(*final(self), num as nat),
            final(output)@.len() == old(output)@.len(),
            final(output)@.subrange(0, (num * old(self).channels()) as int) == old(self)@.subrange(
                0,
                (num * old(self).channels()) as int,
            ),
            final(output)@.subrange((num * old(self).channels()) as int, old(output)@.len() as int)
                == old(output)@.subrange(
                (num * old(self).channels()) as int,
                old(output)@.len() as int,
            ),
    {
        proof {
            self.lemma_layout();
        }
        let num = if max_samples < self.samples_in_buffer {
            max_samples
        } else {
            self.samples_in_buffer
        };
        if num == 0 {
            proof {
                assert(self@.subrange(0, self@.len() as int) =~= self@);
                assert(output@.subrange(0, output@.len() as int) =~= output@);
            }
            return 0;
        }
        proof {
            let c = self.channels as int;
            assert(num * c <= self.samples_in_buffer * c) by (nonlinear_arith)
                requires
                    num <= self.samples_in_buffer,
                    c >= 0,
            ;
        }
        let start = self.buffer_pos * self.channels;
        let count = num * self.channels;
        let live = self.ptr_begin();
        let mut i: usize = 0;
        while i < count
            invariant
                live@ == old(self)@,
                count <= live@.len(),
                count <= old(output)@.len(),
                output@.len() == old(output)@.len(),
                i <= count,
                forall|k: int| 0 <= k < i ==> #[trigger] output@[k] == live@[k],
                forall|k: int| i <= k < output@.len() ==> #[trigger] output@[k] == old(output)@[k],
            decreases count - i,
        {
            output[i] = live[i];
            i += 1;
        }
        self.samples_in_buffer = self.samples_in_buffer - num;
        self.buffer_pos = self.buffer_pos + num;
        proof {
            let p = old(self).pos() as int;
            let n = old(self).frames() as int;
            let c = self.channels as int;
            assert((p + num) * c == p * c + num * c) by (nonlinear_arith);
            assert((p + num + (n - num)) * c == (p + n) * c) by (nonlinear_arith);
            self.lemma_layout();
            assert(self@ =~= old(self)@.subrange(count as int, old(self)@.len() as int));
            assert(output@.subrange(0, count as int) =~= old(self)@.subrange(0, count as int));
            assert(output@.subrange(count as int, output@.len() as int) =~= old(output)@.subrange(
                count as int,
                old(output)@.len() as int,
            ));
        }
        num
    }

    /// Removes up to `max_samples` frames from the front of the buffer and
    /// returns how many it removed.
    pub fn receive_samples_no_copy(&mut self, max_samples: usize) -> (num: usize)
        requires
            old(self).wf(),
        ensures
            num == old(self).received_count(max_samples as nat),
            old(self).receive_post(*final(self), num as nat),
    {
        proof {
            self.lemma_layout();
        }
        let num = if max_samples < self.samples_in_buffer {
            max_samples
        } else {
            self.samples_in_buffer
        };
        self.samples_in_buffer = self.samples_in_buffer - num;
        self.buffer_pos = self.buffer_pos + num;
        proof {
            let p = old(self).pos() as int;
            let n = old(self).frames() as int;
            let c = self.channels as int;
            assert((p + num) * c == p * c + num * c) by (nonlinear_arith);
            assert((p + num + (n - num)) * c == (p + n) * c) by (nonlinear_arith);
            self.lemma_layout();
            assert(self@ =~= old(self)@.subrange((num * c) as int, old(self)@.len() as int));
        }
        num
    }

    /// Moves every frame of `src` to the end of this buffer. The samples are
    /// taken as they are stored: when this buffer has fewer channels, the
    /// leading `src.frames() * channels` samples of `src` are appended.
    pub fn move_samples(&mut self, src: &mut Self)
        requires
            old(self).wf(),
            old(src).wf(),
            old(self).channels() <= old(src).channels(),
            fits_in_memory::<T>(((old(self).frames() + old(src).frames()) * old(self).channels()) as int),
        ensures
            old(self).put_post(*final(self), old(src)@, old(src).frames()),
            old(src).receive_post(*final(src), old(src).frames()),
            final(src)@ == Seq::<T>::empty(),
    {
        let num_samples = src.num_samples();
        if num_samples == 0 {
            proof {
                self.lemma_layout();
                src.lemma_layout();
                assert(0 * self.channels() == 0);
                assert(self@ + src@.subrange(0, 0) =~= self@);
                assert(src@ =~= Seq::<T>::empty());
                assert(src@.subrange(0, src@.len() as int) =~= src@);
                assert(self.pos() + 0 <= self.capacity_frames());
            }
            return;
        }
        proof {
            src.lemma_wf();
            let a = self.channels() as int;
            let b = src.channels() as int;
            assert(num_samples * a <= num_samples * b) by (nonlinear_arith)
                requires
                    a <= b,
                    num_samples >= 0,
            ;
        }
        self.put_samples(src.ptr_begin(), num_samples);
        src.receive_samples_no_copy(num_samples);
        proof {
            src.lemma_wf();
            assert(src@ =~= Seq::<T>::empty());
        }
    }

    /// Removes every frame.
    pub fn clear(&mut self)
        requires
            old(self).wf(),
        ensures
            final(self).wf(),
            final(self)@ == Seq::<T>::empty(),
            final(self).frames() == 0,
            final(self).pos() == 0,
            final(self).channels() == old(self).channels(),
            final(self).silence() == old(self).silence(),
            final(self).size_bytes() == old(self).size_bytes(),
            final(self).storage() == old(self).storage(),
    {
        proof {
            self.lemma_layout();
        }
        self.samples_in_buffer = 0;
        self.buffer_pos = 0;
        proof {
            self.lemma_layout();
            assert(self@ =~= Seq::<T>::empty());
        }
    }

    /// Keeps at most the first `num_samples` frames and returns how many
    /// frames the buffer then holds.
    pub fn adjust_amount_of_samples(&mut self, num_samples: usize) -> (r: usize)
        requires
            old(self).wf(),
        ensures
            r == if num_samples < old(self).frames() {
                num_samples as nat
            } else {
                old(self).frames()
            },
            final(self).wf(),
            final(self).frames() == r,
            final(self)@ == old(self)@.subrange(0, (r * old(self).channels()) as int),
            final(self).pos() == old(self).pos(),
            final(self).channels() == old(self).channels(),
            final(self).silence() == old(self).silence(),
            final(self).size_bytes() == old(self).size_bytes(),
            final(self).storage() == old(self).storage(),
    {
        proof {
            self.lemma_layout();
        }
        if num_samples < self.samples_in_buffer {
            self.samples_in_buffer = num_samples;
        }
        proof {
            let p = self.pos() as int;
            let c = self.channels() as int;
            let r = self.samples_in_buffer as int;
            let n0 = old(self).frames() as int;
            assert((p + r) * c == p * c + r * c) by (nonlinear_arith);
            assert((p + r) * c <= (p + n0) * c) by (nonlinear_arith)
                requires
                    r <= n0,
                    c >= 0,
            ;
            self.lemma_layout();
            assert(self@ =~= old(self)@.subrange(0, (r * c) as int));
        }
        self.samples_in_buffer
    }

    /// Sets the number of channels without moving the stored samples: the
    /// buffered samples are reinterpreted as frames of the new width (a
    /// partial last frame is dropped), read from the same frame position
    /// as before. Where frames were already received, that position now
    /// falls elsewhere in the storage, so the frames read can differ from
    /// the buffered samples. Only where the reinterpreted frames would
    /// reach past the allocation are the buffered samples first moved to
    /// the start, so that the frames read are the buffered samples. A count
    /// outside 1 ..= `MAX_CHANNELS` is refused and leaves the buffer as it
    /// was.
    pub fn set_channels(&mut self, num_channels: usize) -> (r: Result<(), SoundTouchError>)
        requires
            old(self).wf(),
        ensures
            final(self).wf(),
            r is Ok <==> valid_channels(num_channels),
            !valid_channels(num_channels) ==> r == Err::<(), SoundTouchError>(
                SoundTouchError::InvalidChannels(num_channels as u32),
            ) && *final(self) == *old(self),
            num_channels == old(self).channels() ==> *final(self) == *old(self),
            valid_channels(num_channels) ==> {
                let f = (old(self).frames() * old(self).channels()) / (num_channels as nat);
                &&& final(self).channels() == num_channels
                &&& final(self).frames() == f
                &&& final(self).silence() == old(self).silence()
                &&& final(self).size_bytes() == old(self).size_bytes()
                &&& (old(self).pos() + f) * num_channels <= old(self).storage().len() ==> {
                    &&& final(self).pos() == old(self).pos()
                    &&& final(self).storage() == old(self).storage()
                    &&& final(self)@ == old(self).storage().subrange(
                        (old(self).pos() * num_channels) as int,
                        ((old(self).pos() + f) * num_channels) as int,
                    )
                }
                &&& (old(self).pos() + f) * num_channels > old(self).storage().len() ==> {
                    &&& final(self).pos() == 0
                    &&& final(self)@ == old(self)@.subrange(0, (f * num_channels) as int)
                }
            },
    {
        match check_channels(num_channels) {
            Err(e) => {
                return Err(e);
            },
            Ok(()) => {},
        }
        if num_channels == self.channels {
            proof {
                self.lemma_wf();
                let n = self.samples_in_buffer as int;
                let c = self.channels as int;
                vstd::arithmetic::div_mod::lemma_div_by_multiple(n, c);
                assert(self@.subrange(0, n * c) =~= self@);
            }
            return Ok(());
        }
        proof {
            self.lemma_layout();
            let n = self.samples_in_buffer as int;
            let c = self.channels as int;
            let p = self.buffer_pos as int;
            assert(n * c >= 0 && p <= p * c && n <= n * c) by (nonlinear_arith)
                requires
                    n >= 0,
                    c >= 1,
                    p >= 0,
            ;
            assert(p * c + n * c == (p + n) * c) by (nonlinear_arith);
        }
        let new_samples = self.samples_in_buffer * self.channels / num_channels;
        let cap = self.buffer.capacity();
        proof {
            let n = self.samples_in_buffer as int;
            let c = self.channels as int;
            let m = num_channels as int;
            lemma_div_mul_le(n * c, m);
            assert(new_samples <= n * c) by (nonlinear_arith)
                requires
                    new_samples * m <= n * c,
                    m >= 1,
                    new_samples >= 0,
            ;
            self.buffer.lemma_wf();
        }
        let fits = self.buffer_pos + new_samples <= cap / num_channels;
        proof {
            let m = num_channels as int;
            let q = (self.buffer_pos + new_samples) as int;
            let cp = cap as int;
            lemma_div_mul_le(cp, m);
            if fits {
                assert(q * m <= (cp / m) * m) by (nonlinear_arith)
                    requires
                        q <= cp / m,
                        m >= 0,
                ;
            } else {
                lemma_le_div_contra(q, m, cp);
            }
            assert(fits <==> q * m <= cp);
        }
        if !fits {
            self.rewind();
        }
        proof {
            self.lemma_layout();
            let p = self.buffer_pos as int;
            let m = num_channels as int;
            let sb = sample_bytes::<T>() as int;
            let size = self.size_in_bytes as int;
            let q = p + new_samples;
            if !fits {
                // after the rewind the reinterpreted frames start at 0
                let n = self.samples_in_buffer as int;
                let c = self.channels as int;
                lemma_div_mul_le(n * c, m);
                assert(q * m <= n * c);
            }
            // the reinterpreted frames fit in the allocation
            assert(q * m <= size / sb);
            lemma_div_mul_le(size, sb);
            assert((q * m) * sb <= (size / sb) * sb) by (nonlinear_arith)
                requires
                    q * m <= size / sb,
                    sb >= 0,
            ;
            assert(q * (m * sb) == (q * m) * sb) by (nonlinear_arith);
            assert(m * sb >= 1) by (nonlinear_arith)
                requires
                    m >= 1,
                    sb >= 1,
            ;
            lemma_le_div(q, m * sb, size);
        }
        let ghost before = *self;
        self.channels = num_channels;
        self.samples_in_buffer = new_samples;
        proof {
            self.lemma_layout();
            if fits {
                assert(self@ =~= old(self).storage().subrange(
                    (old(self).pos() * num_channels) as int,
                    ((old(self).pos() + new_samples) * num_channels) as int,
                ));
            } else {
                assert(self@ =~= before@.subrange(0, (new_samples * num_channels) as int));
                assert(before@ == old(self)@);
            }
        }
        Ok(())
    }

    /// Appends `num_samples` frames of silence.
    pub fn add_silent(&mut self, num_samples: usize)
        requires
            old(self).wf(),
            fits_in_memory::<T>((old(self).frames() + num_samples) * old(self).channels()),
        ensures
            old(self).put_post(
                *final(self),
                Seq::new(
                    (num_samples * old(self).channels()) as nat,
                    |i: int| old(self).silence(),
                ),
                num_samples as nat,
            ),
    {
        proof {
            self.lemma_layout();
            let c = self.channels as int;
            lemma_fits_in_memory::<T>((self.frames() + num_samples) * c);
            assert(num_samples * c <= (self.frames() + num_samples) * c) by (nonlinear_arith)
                requires
                    c >= 1,
                    self.frames() >= 0,
            ;
        }
        let count = num_samples * self.channels;
        let mut silent: Vec<T> = Vec::new();
        let mut i: usize = 0;
        while i < count
            invariant
                i <= count,
                silent@.len() == i,
                forall|k: int| 0 <= k < i ==> #[trigger] silent@[k] == self.silence,
            decreases count - i,
        {
            silent.push(self.silence);
            i += 1;
        }
        let ghost zeros = silent@;
        self.put_samples(silent.as_slice(), num_samples);
        proof {
            assert(zeros =~= Seq::new(count as nat, |k: int| old(self).silence()));
            assert(zeros.subrange(0, count as int) =~= zeros);
        }
    }

    /// `after` is this buffer once room for `slack` more frames has been
    /// made and `written` has been written to the storage right past the
    /// buffered frames.
    pub open spec fn ptr_end_post(&self, after: Self, slack: nat, written: Seq<T>) -> bool {
        let start = (after.pos() + self.frames()) * self.channels();
        let old_start = (self.pos() + self.frames()) * self.channels();
        let len = slack * self.channels();
        &&& after.wf()
        &&& after@ =~= self@
        &&& after.frames() == self.frames()
        &&& after.channels() == self.channels()
        &&& after.silence() == self.silence()
        &&& after.pos() == self.room_pos(self.frames() + slack)
        &&& after.size_bytes() == self.room_size_bytes(self.frames() + slack)
        &&& after.pos() + self.frames() + slack <= after.capacity_frames()
        &&& after.storage().subrange(start as int, (start + len) as int) =~= written
        &&& self.pos() + self.frames() + slack <= self.capacity_frames() ==> after.storage()
            =~= self.storage().subrange(0, old_start as int) + written + self.storage().subrange(
            (old_start + len) as int,
            self.storage().len() as int,
        )
    }

    /// The storage past the buffered frames, with room for `slack_capacity`
    /// frames; what is written there is appended by `put_samples_no_copy`.
    /// (Rust keeps the returned slice's length; the clauses on the final
    /// state are stated under that fact.)
    pub fn ptr_end(&mut self, slack_capacity: usize) -> (r: &mut [T])
        requires
            old(self).wf(),
            fits_in_memory::<T>((old(self).frames() + slack_capacity) * old(self).channels()),
        ensures
            r@.len() == slack_capacity * old(self).channels(),
            old(self).pos() + old(self).frames() + slack_capacity <= old(self).capacity_frames()
                ==> r@ == old(self).storage().subrange(
                ((old(self).pos() + old(self).frames()) * old(self).channels()) as int,
                ((old(self).pos() + old(self).frames() + slack_capacity) * old(self).channels()) as int,
            ),
            final(r)@.len() == r@.len() ==> old(self).ptr_end_post(
                *final(self),
                slack_capacity as nat,
                final(r)@,
            ),
    {
        proof {
            self.lemma_layout();
            let c = self.channels as int;
            lemma_fits_in_memory::<T>((self.frames() + slack_capacity) * c);
            assert(self.frames() + slack_capacity <= (self.frames() + slack_capacity) * c)
                by (nonlinear_arith)
                requires
                    c >= 1,
                    self.frames() + slack_capacity >= 0,
            ;
        }
        let req = self.samples_in_buffer + slack_capacity;
        self.ensure_capacity(req);
        proof {
            self.lemma_room(req as nat);
            self.lemma_layout();
            let p = self.pos() as int;
            let n = self.frames() as int;
            let c = self.channels() as int;
            assert((p + n) * c + slack_capacity * c == (p + req) * c) by (nonlinear_arith)
                requires
                    req == n + slack_capacity,
            ;
            self.buffer.lemma_wf();
        }
        let start = (self.buffer_pos + self.samples_in_buffer) * self.channels;
        let count = slack_capacity * self.channels;
        let all = self.buffer.as_mut_slice();
        let (_head, rest) = all.split_at_mut(start);
        let (mid, _tail) = rest.split_at_mut(count);
        mid
    }
}

/// First in, first out: frames received after a put are the frames that
/// were already buffered followed by the frames that were put, in order;
/// what stays buffered is the rest of that run. Into an empty buffer, a put
/// followed by a receive of as many frames gives back exactly what was put.
pub proof fn law_first_in_first_out<T: Copy + Default>(
    b0: FIFOSampleBuffer<T>,
    b1: FIFOSampleBuffer<T>,
    b2: FIFOSampleBuffer<T>,
    samples: Seq<T>,
    num: nat,
    received: nat,
)
    requires
        b0.wf(),
        samples.len() >= num * b0.channels(),
        b0.put_post(b1, samples, num),
        received <= b1.frames(),
        b1.receive_post(b2, received),
    ensures
        ({
            let run = b0@ + samples.subrange(0, (num * b0.channels()) as int);
            let cut = (received * b0.channels()) as int;
            &&& b1@.subrange(0, cut) == run.subrange(0, cut)
            &&& b2@ == run.subrange(cut, run.len() as int)
            &&& b2.frames() == b0.frames() + num - received
        }),
        b0.frames() == 0 && received == num ==> {
            &&& b1@.subrange(0, (received * b0.channels()) as int) == samples.subrange(
                0,
                (num * b0.channels()) as int,
            )
            &&& b2@ == Seq::<T>::empty()
        },
{
    b0.lemma_wf();
    b1.lemma_wf();
    let c = b0.channels() as int;
    assert(num * c <= samples.len());
    if b0.frames() == 0 && received == num {
        assert(b0@ =~= Seq::<T>::empty());
        assert(b2@ =~= Seq::<T>::empty());
        assert(b1@.subrange(0, (received * c) as int) =~= samples.subrange(0, (num * c) as int));
    }
}

/// Moving the frames of one buffer to another of the same width keeps every
/// sample: the destination gains the source's samples after its own, the
/// source ends up empty, and the number of frames of the two is unchanged.
pub proof fn law_move_keeps_every_sample<T: Copy + Default>(
    d0: FIFOSampleBuffer<T>,
    d1: FIFOSampleBuffer<T>,
    s0: FIFOSampleBuffer<T>,
    s1: FIFOSampleBuffer<T>,
)
    requires
        d0.wf(),
        s0.wf(),
        d0.channels() == s0.channels(),
        d0.put_post(d1, s0@, s0.frames()),
        s0.receive_post(s1, s0.frames()),
    ensures
        d1@ == d0@ + s0@,
        s1@ == Seq::<T>::empty(),
        d1.frames() + s1.frames() == d0.frames() + s0.frames(),
{
    s0.lemma_wf();
    s1.lemma_wf();
    assert(s0@.subrange(0, (s0.frames() * d0.channels()) as int) =~= s0@);
    assert(s1@ =~= Seq::<T>::empty());
}

/// What is written to the storage handed out by `ptr_end` is what a
/// following `put_samples_no_copy` of at most as many frames appends.
pub proof fn law_written_slack_is_appended<T: Copy + Default>(
    b0: FIFOSampleBuffer<T>,
    b1: FIFOSampleBuffer<T>,
    b2: FIFOSampleBuffer<T>,
    slack: nat,
    written: Seq<T>,
    num: nat,
)
    requires
        b0.wf(),
        written.len() == slack * b0.channels(),
        b0.ptr_end_post(b1, slack, written),
        num <= slack,
        b1.put_no_copy_post(b2, num),
    ensures
        b2@ == b0@ + written.subrange(0, (num * b0.channels()) as int),
        b2.frames() == b0.frames() + num,
{
    b1.lemma_wf();
    b2.lemma_wf();
    let c = b0.channels() as int;
    let p = b1.pos() as int;
    let n = b0.frames() as int;
    assert(p + n + num <= b1.capacity_frames());
    assert(b2.storage() == b1.storage());
    assert(b2.pos() == b1.pos());
    assert((p + n) * c + num * c == (p + n + num) * c) by (nonlinear_arith);
    assert((p + n) * c + slack * c == (p + n + slack) * c) by (nonlinear_arith);
    assert(p * c + n * c == (p + n) * c) by (nonlinear_arith);
    assert(num * c <= slack * c) by (nonlinear_arith)
        requires
            num <= slack,
            c >= 0,
    ;
    let start = (p + n) * c;
    b1.lemma_room((n + slack) as nat);
    assert(b1.storage().subrange(start, start + slack * c) == written);
    assert forall|i: int| 0 <= i < num * c implies #[trigger] written[i] == b1.storage()[start + i] by {
        assert(b1.storage().subrange(start, start + slack * c)[i] == b1.storage()[start + i]);
    }
    assert(b2@ =~= b0@ + written.subrange(0, num * c));
}

} // verus!
