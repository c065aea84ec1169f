//! Length rules of the FIR (finite impulse response) filter.
//!
//! A filter of `length` taps turns `num_samples` input frames into
//! `num_samples - length` output frames; its length must be a positive
//! multiple of 8.

use vstd::prelude::*;

use crate::error::SoundTouchError;

verus! {

/// Checks a new filter length and returns it divided by 8. A zero length,
/// or one that is not a multiple of 8, is refused with the message that says
/// which.
pub fn check_filter_length(new_length: usize) -> (r: Result<usize, SoundTouchError>)
    ensures
        new_length > 0 && new_length % 8 == 0 <==> r is Ok,
        r matches Ok(d) ==> d == new_length / 8,
        new_length == 0 ==> (r matches Err(SoundTouchError::InvalidParameter(m)) && m@
            == "Filter length must be > 0"@),
        new_length > 0 && new_length % 8 != 0 ==> (r matches Err(
            SoundTouchError::InvalidParameter(m),
        ) && m@ == "FIR filter length not divisible by 8"@),
{
    if new_length == 0 {
        return Err(SoundTouchError::InvalidParameter("Filter length must be > 0".to_owned()));
    }
    if new_length % 8 != 0 {
        return Err(
            SoundTouchError::InvalidParameter("FIR filter length not divisible by 8".to_owned()),
        );
    }
    Ok(new_length / 8)
}

/// The number of output frames a filter of `length` taps produces from
/// `num_samples` input frames: none when the filter is unset or the input is
/// shorter than the filter, else the input less the filter length (rounded
/// down to a multiple of 8).
pub open spec fn filter_output_count_spec(length: usize, num_samples: usize) -> int {
    if length == 0 || num_samples < length {
        0
    } else {
        num_samples - (length - length % 8)
    }
}

/// The number of output frames a filter of `length` taps produces from
/// `num_samples` input frames (see `filter_output_count_spec`).
pub fn filter_output_count(length: usize, num_samples: usize) -> (r: usize)
    ensures
        r == filter_output_count_spec(length, num_samples),
        length > 0 && length % 8 == 0 && num_samples >= length ==> r == num_samples - length,
        r <= num_samples,
{
    if length == 0 || num_samples < length {
        return 0;
    }
    let ilength = length & !7usize;
    assert(ilength == length - length % 8) by (bit_vector)
        requires
            ilength == length & !7usize,
    ;
    num_samples - ilength
}

} // verus!
