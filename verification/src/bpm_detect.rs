//! Integer parts of beat detection: the analysis window that a sample rate
//! gives, and the peak search over the smoothed autocorrelation.
//!
//! The peak search compares values only. It works on order keys: integers
//! that order (and equal) as the analysed values do, so that a search over
//! the keys finds the positions a search over the values would.

use vstd::prelude::*;

verus! {

/// Minimum allowed BPM rate.
pub const MIN_BPM: i32 = 45;

/// Maximum allowed BPM rate range, used for the analysis window.
pub const MAX_BPM_RANGE: i32 = 200;

/// Maximum allowed BPM rate.
pub const MAX_BPM_VALID: i32 = 190;

/// Algorithm input sample block size.
pub const INPUT_BLOCK_SIZE: usize = 2048;

/// Decimated sample block size.
pub const DECIMATED_BLOCK_SIZE: usize = 256;

/// Target sample rate after decimation.
pub const TARGET_SRATE: i32 = 1000;

/// Autocorrelation update sequence size (a fifth of the target rate).
pub const XCORR_UPDATE_SEQUENCE: usize = 200;

/// Moving average size.
pub const MOVING_AVERAGE_N: usize = 15;

/// Data overlap factor of the beat detection.
pub const OVERLAP_FACTOR: usize = 4;

/// The analysis window that a sample rate gives.
#[derive(Debug, Clone, Copy, PartialEq, Eq, Structural)]
pub struct BpmWindow {
    /// Decimation factor that brings the rate to about 1000 Hz.
    pub decimate_by: i32,
    /// Autocorrelation window length (longest beat period, in decimated samples).
    pub window_len: usize,
    /// Beginning of the autocorrelation window (shortest beat period).
    pub window_start: usize,
}

/// The analysis window for `sample_rate` samples per second.
pub open spec fn bpm_window_spec(sample_rate: u32) -> BpmWindow {
    let sr = sample_rate as int;
    let d = sr / 1000;
    BpmWindow {
        decimate_by: d as i32,
        window_len: ((60 * sr) / (d * 45)) as usize,
        window_start: ((60 * sr) / (d * 200)) as usize,
    }
}

/// At 8000 samples per second or more, the window ends (slowest beat) well
/// after it starts (fastest beat).
proof fn lemma_window_order(sr: int)
    requires
        8000 <= sr,
    ensures
        (60 * sr) / ((sr / 1000) * 200) < (60 * sr) / ((sr / 1000) * 45),
        (60 * sr) / ((sr / 1000) * 200) >= 0,
{
    let d = sr / 1000;
    vstd::arithmetic::div_mod::lemma_fundamental_div_mod(sr, 1000);
    assert(d >= 8);
    let s = 60 * sr;
    let a = s / (d * 45);
    let b = s / (d * 200);
    assert(d * 45 > 0 && d * 200 > 0) by (nonlinear_arith)
        requires
            d >= 8,
    ;
    vstd::arithmetic::div_mod::lemma_fundamental_div_mod(s, d * 45);
    vstd::arithmetic::div_mod::lemma_fundamental_div_mod(s, d * 200);
    assert(b >= 0) by (nonlinear_arith)
        requires
            s >= 0,
            d * 200 > 0,
            b == s / (d * 200),
    ;
    assert(a >= 1333) by (nonlinear_arith)
        requires
            s == (d * 45) * a + s % (d * 45),
            s % (d * 45) < d * 45,
            s >= 60000 * d,
            d >= 8,
    ;
    assert(b <= 337) by (nonlinear_arith)
        requires
            s == (d * 200) * b + s % (d * 200),
            s % (d * 200) >= 0,
            s < 60000 * d + 60000,
            d >= 8,
    ;
}

/// The analysis window decimates to about 1000 Hz: the decimation factor
/// is the number of whole thousands in the rate, so that the decimated rate
/// `sample_rate / decimate_by` lies in `[1000, 1000 + 1000 / decimate_by)`;
/// the window spans the beat periods of 45 (end) to 200 (start) beats per
/// minute at the decimated rate.
pub proof fn law_window_decimates_to_1000_hz(sample_rate: u32)
    requires
        8000 <= sample_rate,
    ensures
        ({
            let w = bpm_window_spec(sample_rate);
            let d = w.decimate_by as int;
            let sr = sample_rate as int;
            &&& d == sr / 1000
            &&& 1000 * d <= sr < 1000 * d + 1000
            &&& w.window_len == (60 * sr) / (d * 45)
            &&& w.window_start == (60 * sr) / (d * 200)
        }),
{
    let sr = sample_rate as int;
    vstd::arithmetic::div_mod::lemma_fundamental_div_mod(sr, 1000);
    lemma_window_order(sr);
    let d = sr / 1000;
    assert(d <= 4294968);
    assert(d * 45 >= 1 && d * 200 >= 1) by (nonlinear_arith)
        requires
            d >= 8,
    ;
    vstd::arithmetic::div_mod::lemma_div_basics(60 * sr);
    vstd::arithmetic::div_mod::lemma_div_is_ordered_by_denominator(60 * sr, 1, d * 45);
    vstd::arithmetic::div_mod::lemma_div_is_ordered_by_denominator(60 * sr, 1, d * 200);
    vstd::arithmetic::div_mod::lemma_div_pos_is_pos(60 * sr, d * 45);
    vstd::arithmetic::div_mod::lemma_div_pos_is_pos(60 * sr, d * 200);
    vstd::arithmetic::div_mod::lemma_div_is_ordered_by_denominator(60 * sr, 360, d * 45);
    vstd::arithmetic::div_mod::lemma_div_is_ordered_by_denominator(60 * sr, 360, d * 200);
    vstd::arithmetic::div_mod::lemma_div_is_ordered(60 * sr, 60 * 4294967295int, 360);
    assert((60 * 4294967295int) / 360 == 715827882);
    let w = bpm_window_spec(sample_rate);
    assert(w.window_len == (60 * sr) / (d * 45));
    assert(w.window_start == (60 * sr) / (d * 200));
}

/// The analysis window for `sample_rate` samples per second (see
/// `bpm_window_spec`). Rates below 8000 cannot be decimated to about
/// 1000 Hz in blocks of the input size and are not accepted.
pub fn bpm_window(sample_rate: u32) -> (r: BpmWindow)
    requires
        8000 <= sample_rate,
        60 * sample_rate <= i32::MAX,
    ensures
        r == bpm_window_spec(sample_rate),
        r.decimate_by == sample_rate / 1000,
        1000 * r.decimate_by <= sample_rate < 1000 * (r.decimate_by + 1),
        r.window_len == (60 * sample_rate) / (r.decimate_by * 45),
        r.window_start == (60 * sample_rate) / (r.decimate_by * 200),
        r.decimate_by >= 8,
        r.window_start < r.window_len,
{
    let sr = sample_rate as i32;
    let decimate_by: i32 = sr / TARGET_SRATE;
    proof {
        assert(sr == sample_rate);
        assert(decimate_by <= 35791);
        assert(decimate_by >= 8);
        assert(decimate_by * 45 <= 60 * sr) by (nonlinear_arith)
            requires
                decimate_by == sr / 1000,
                sr >= 0,
        ;
        assert(decimate_by * 200 <= 60 * sr) by (nonlinear_arith)
            requires
                decimate_by == sr / 1000,
                sr >= 0,
        ;
        lemma_window_order(sr as int);
    }
    let window_len = 60 * sr / (decimate_by * MIN_BPM);
    let window_start = 60 * sr / (decimate_by * MAX_BPM_RANGE);
    BpmWindow { decimate_by, window_len: window_len as usize, window_start: window_start as usize }
}

/// Peak finder over a sequence of order keys, searching between `min_pos`
/// and `max_pos`.
pub struct PeakFinder {
    /// Lower end of the search range.
    pub min_pos: usize,
    /// Upper end of the search range.
    pub max_pos: usize,
}

/// Whether position `result` is where a left-to-right scan of
/// `data[start ..= end]` for a value greater than `data[peakpos]` ends: the
/// first position of the largest value when that value exceeds
/// `data[peakpos]`, else `peakpos`.
pub open spec fn is_top(data: Seq<i64>, peakpos: int, start: int, end: int, result: int) -> bool {
    if exists|i: int| start <= i <= end && data[i] > data[peakpos] {
        &&& start <= result <= end
        &&& data[result] > data[peakpos]
        &&& forall|i: int| start <= i <= end ==> data[i] <= data[result]
        &&& forall|i: int| start <= i < result ==> data[i] < data[result]
    } else {
        result == peakpos
    }
}

/// The position at which a walk from `peakpos` in steps of `direction`
/// first has a next value below `level`, while the position stays at or
/// above `min_pos` and the next one below `max_pos`.
pub open spec fn crossing_from(
    data: Seq<i64>,
    level: i64,
    pos: int,
    direction: int,
    min_pos: int,
    max_pos: int,
    fuel: nat,
) -> Option<usize>
    decreases fuel,
{
    if fuel == 0 {
        None
    } else if pos >= min_pos && pos + direction < max_pos {
        if data[pos + direction] < level {
            Some(pos as usize)
        } else {
            crossing_from(data, level, pos + direction, direction, min_pos, max_pos, (fuel - 1) as nat)
        }
    } else {
        None
    }
}

/// Whether the downward walk of `find_crossing_level` from `peakpos` gets to
/// position 0 without finding a value below `level`: it starts (its first
/// step stays below `max_pos`) and every value before `peakpos` is at least
/// `level`.
pub open spec fn walk_reaches_start(data: Seq<i64>, level: i64, peakpos: int, max_pos: int) -> bool {
    peakpos <= max_pos && forall|k: int| 0 <= k < peakpos ==> data[k] >= level
}

/// The position that the walk for the ground level of a peak hump returns:
/// the walk goes from `pos` in steps of `direction` while it stays strictly
/// inside `(min_pos + 1, max_pos - 1)`; a step that does not climb lowers
/// the climbing count (not below 0) and records a new lowest value, a step
/// that climbs raises it, and more than five climbs in a row end the walk.
pub open spec fn ground_from(
    data: Seq<i64>,
    pos: int,
    direction: int,
    climb: int,
    low: int,
    min_pos: int,
    max_pos: int,
    fuel: nat,
) -> int
    decreases fuel,
{
    if fuel == 0 || !(pos > min_pos + 1 && pos < max_pos - 1) {
        low
    } else {
        let next = pos + direction;
        if data[next] <= data[pos] {
            let climb2 = if climb > 0 {
                climb - 1
            } else {
                0
            };
            let low2 = if data[next] < data[low] {
                next
            } else {
                low
            };
            ground_from(data, next, direction, climb2, low2, min_pos, max_pos, (fuel - 1) as nat)
        } else if climb + 1 > 5 {
            low
        } else {
            ground_from(data, next, direction, climb + 1, low, min_pos, max_pos, (fuel - 1) as nat)
        }
    }
}

impl PeakFinder {
    /// First position of the seek range around `peakpos`: ten positions
    /// before it, but not before the search range.
    pub open spec fn top_start(&self, peakpos: usize) -> int {
        let low = if peakpos < 10 {
            0
        } else {
            peakpos - 10
        };
        if low > self.min_pos {
            low
        } else {
            self.min_pos as int
        }
    }

    /// Last position of the seek range around `peakpos`: ten positions
    /// after it, but not past the end of the search range.
    pub open spec fn top_end(&self, peakpos: usize) -> int {
        if peakpos + 10 < self.max_pos {
            peakpos + 10
        } else {
            self.max_pos as int
        }
    }

    /// A peak finder with an empty search range.
    pub fn new() -> (r: Self)
        ensures
            r.min_pos == 0,
            r.max_pos == 0,
    {
        PeakFinder { min_pos: 0, max_pos: 0 }
    }

    /// Finds the top of the hump near `peakpos`: the highest value within
    /// ten positions of it (and inside the search range). `None` when that
    /// value is at an edge of the seek range, where it is a slope and not a
    /// peak.
    pub fn find_top(&self, data: &[i64], peakpos: usize) -> (r: Option<usize>)
        requires
            peakpos < data@.len(),
            peakpos + 10 <= usize::MAX,
            self.top_end(peakpos) < data@.len(),
        ensures
            exists|result: int|
                #![trigger is_top(data@, peakpos as int, self.top_start(peakpos), self.top_end(peakpos), result)]
                is_top(
                    data@,
                    peakpos as int,
                    self.top_start(peakpos),
                    self.top_end(peakpos),
                    result,
                ) && r == if result == self.top_start(peakpos) || result == self.top_end(peakpos) {
                    None::<usize>
                } else {
                    Some(result as usize)
                },
    {
        let mut refvalue = data[peakpos];
        let mut result = peakpos;
        let low = if peakpos < 10 {
            0
        } else {
            peakpos - 10
        };
        let start = if low > self.min_pos {
            low
        } else {
            self.min_pos
        };
        let end = if peakpos + 10 < self.max_pos {
            peakpos + 10
        } else {
            self.max_pos
        };
        let mut i = start;
        while i <= end
            invariant
                start <= i,
                i <= end + 1 || i == start,
                end < data@.len(),
                peakpos < data@.len(),
                refvalue == data@[result as int],
                refvalue >= data@[peakpos as int],
                result == peakpos || (start <= result < i),
                forall|k: int| start <= k < i ==> data@[k] <= refvalue,
                result == peakpos ==> refvalue == data@[peakpos as int],
                result != peakpos ==> refvalue > data@[peakpos as int] && forall|k: int|
                    start <= k < result ==> data@[k] < refvalue,
            decreases end + 1 - i,
        {
            if data[i] > refvalue {
                result = i;
                refvalue = data[i];
            }
            i = i + 1;
        }
        proof {
            let d = data@;
            let p = peakpos as int;
            if exists|k: int| start <= k <= end && d[k] > d[p] {
                let k = choose|k: int| start <= k <= end && d[k] > d[p];
                assert(d[k] <= refvalue);
                assert(result != peakpos);
            }
            assert(start as int == self.top_start(peakpos));
            assert(end as int == self.top_end(peakpos));
            assert(is_top(d, p, self.top_start(peakpos), self.top_end(peakpos), result as int));
        }
        if result == start || result == end {
            None
        } else {
            Some(result)
        }
    }

    /// Finds the ground level of the hump at `peakpos` walking in
    /// `direction` (see `ground_from`).
    pub fn find_ground(&self, data: &[i64], peakpos: usize, direction: isize) -> (r: usize)
        requires
            direction == 1 || direction == -1,
            peakpos < data@.len(),
            self.max_pos <= data@.len(),
            self.max_pos < isize::MAX,
            self.min_pos < isize::MAX,
            peakpos < isize::MAX,
        ensures
            r as int == ground_from(
                data@,
                peakpos as int,
                direction as int,
                0,
                peakpos as int,
                self.min_pos as int,
                self.max_pos as int,
                data@.len() + 1,
            ),
    {
        let mut climb_count: usize = 0;
        let mut refvalue = data[peakpos];
        let mut lowpos = peakpos;
        let mut pos = peakpos as isize;
        let ghost mut fuel: nat = (data@.len() + 1) as nat;
        while pos > self.min_pos as isize + 1 && pos < self.max_pos as isize - 1
            invariant_except_break
                0 <= pos < data@.len(),
                0 <= lowpos < data@.len(),
                refvalue == data@[lowpos as int],
                climb_count <= 5,
                fuel > 0,
                direction == 1 ==> fuel >= data@.len() - pos,
                direction == -1 ==> fuel >= pos + 1,
                ground_from(
                    data@,
                    pos as int,
                    direction as int,
                    climb_count as int,
                    lowpos as int,
                    self.min_pos as int,
                    self.max_pos as int,
                    fuel,
                ) == ground_from(
                    data@,
                    peakpos as int,
                    direction as int,
                    0,
                    peakpos as int,
                    self.min_pos as int,
                    self.max_pos as int,
                    data@.len() + 1,
                ),
            invariant
                direction == 1 || direction == -1,
                self.max_pos <= data@.len(),
                self.max_pos < isize::MAX,
                self.min_pos < isize::MAX,
                0 <= pos < isize::MAX,
            ensures
                lowpos as int == ground_from(
                    data@,
                    peakpos as int,
                    direction as int,
                    0,
                    peakpos as int,
                    self.min_pos as int,
                    self.max_pos as int,
                    data@.len() + 1,
                ),
            decreases fuel,
        {
            let prevpos = pos;
            pos = pos + direction;
            let here = data[pos as usize];
            let before = data[prevpos as usize];
            if here <= before {
                if climb_count > 0 {
                    climb_count = climb_count - 1;
                }
                if here < refvalue {
                    lowpos = pos as usize;
                    refvalue = here;
                }
                proof {
                    fuel = (fuel - 1) as nat;
                }
            } else {
                climb_count = climb_count + 1;
                if climb_count > 5 {
                    break;
                }
                proof {
                    fuel = (fuel - 1) as nat;
                }
            }
        }
        lowpos
    }

    /// Finds where the hump at `peakpos` crosses `level` walking in
    /// `direction`: the last position before the first value below `level`
    /// (see `crossing_from`). A downward walk that may go to position 0
    /// must find a crossing before it gets there (see
    /// `walk_reaches_start`), as it would otherwise read before the data.
    pub fn find_crossing_level(
        &self,
        data: &[i64],
        level: i64,
        peakpos: usize,
        direction: isize,
    ) -> (r: Option<usize>)
        requires
            direction == 1 || direction == -1,
            self.max_pos <= data@.len(),
            self.max_pos < isize::MAX,
            self.min_pos < isize::MAX,
            peakpos < isize::MAX,
            direction == -1 && self.min_pos == 0 ==> !walk_reaches_start(
                data@,
                level,
                peakpos as int,
                self.max_pos as int,
            ),
        ensures
            r == crossing_from(
                data@,
                level,
                peakpos as int,
                direction as int,
                self.min_pos as int,
                self.max_pos as int,
                (peakpos + data@.len() + 2) as nat,
            ),
    {
        let mut pos = peakpos as isize;
        let ghost mut fuel: nat = (peakpos + data@.len() + 2) as nat;
        while pos >= self.min_pos as isize && pos + direction < self.max_pos as isize
            invariant
                direction == 1 || direction == -1,
                self.max_pos <= data@.len(),
                self.max_pos < isize::MAX,
                self.min_pos < isize::MAX,
                peakpos < isize::MAX,
                direction == -1 && self.min_pos == 0 && pos <= self.max_pos ==> exists|k: int|
                    0 <= k < pos && #[trigger] data@[k] < level,
                0 <= pos,
                pos <= peakpos || pos <= self.max_pos,
                direction == 1 ==> pos >= peakpos,
                direction == -1 ==> pos <= peakpos,
                direction == 1 ==> fuel + pos >= data@.len() + 1,
                direction == -1 ==> fuel >= pos + 2,
                crossing_from(
                    data@,
                    level,
                    pos as int,
                    direction as int,
                    self.min_pos as int,
                    self.max_pos as int,
                    fuel,
                ) == crossing_from(
                    data@,
                    level,
                    peakpos as int,
                    direction as int,
                    self.min_pos as int,
                    self.max_pos as int,
                    (peakpos + data@.len() + 2) as nat,
                ),
            decreases fuel,
        {
            let next = (pos + direction) as usize;
            if data[next] < level {
                return Some(pos as usize);
            }
            proof {
                if direction == -1 && self.min_pos == 0 {
                    let k = choose|k: int| 0 <= k < pos && #[trigger] data@[k] < level;
                    assert(k != pos - 1);
                    assert(0 <= k < pos - 1 && data@[k] < level);
                }
            }
            pos = pos + direction;
            proof {
                fuel = (fuel - 1) as nat;
            }
        }
        None
    }

    /// Sets the search range to `min_pos .. max_pos` and returns the
    /// position of the highest value in it (the first one, when several are
    /// equal); `min_pos` itself when the range holds no position after it.
    pub fn find_peak_pos(&mut self, data: &[i64], min_pos: usize, max_pos: usize) -> (r: usize)
        requires
            min_pos < data@.len(),
            max_pos <= data@.len(),
        ensures
            final(self).min_pos == min_pos,
            final(self).max_pos == max_pos,
            max_pos <= min_pos ==> r == min_pos,
            min_pos < max_pos ==> {
                &&& min_pos <= r < max_pos
                &&& forall|i: int| min_pos <= i < max_pos ==> data@[i] <= data@[r as int]
                &&& forall|i: int| min_pos <= i < r ==> data@[i] < data@[r as int]
            },
    {
        self.min_pos = min_pos;
        self.max_pos = max_pos;
        let mut peakpos = min_pos;
        let mut peak_val = data[min_pos];
        let mut i = min_pos + 1;
        while i < max_pos
            invariant
                min_pos < data@.len(),
                max_pos <= data@.len(),
                min_pos < i,
                i <= max_pos || i == min_pos + 1,
                min_pos <= peakpos < i,
                peak_val == data@[peakpos as int],
                forall|k: int| min_pos <= k < i ==> data@[k] <= peak_val,
                forall|k: int| min_pos <= k < peakpos ==> data@[k] < peak_val,
            decreases max_pos - i,
        {
            if data[i] > peak_val {
                peak_val = data[i];
                peakpos = i;
            }
            i = i + 1;
        }
        proof {
            if max_pos <= min_pos {
                assert(peakpos == min_pos);
            }
        }
        peakpos
    }
}

} // verus!
