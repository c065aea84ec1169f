//! Sample storage with an explicit capacity.
//!
//! The buffer owns an allocation of `capacity` samples of which the first
//! `len` are in use. Growth rounds the allocation up to whole 4 KiB pages, so
//! that the processing stages keep their blocks in a small number of
//! reallocations.

use vstd::prelude::*;

verus! {

/// Alignment, in bytes, that vectorised processing of sample blocks would
/// want. `AlignedSampleVec` guarantees no alignment beyond that of `T`.
pub const ALIGN_BYTES: usize = 16;

/// Size of a memory page that allocations are rounded up to.
pub const PAGE_BYTES: usize = 4096;

/// The number of bytes a sample occupies in an allocation (a zero-sized
/// sample type is counted as one byte).
pub open spec fn sample_bytes<T>() -> nat {
    if vstd::layout::size_of::<T>() == 0 {
        1
    } else {
        vstd::layout::size_of::<T>()
    }
}

/// `bytes` rounded up to a whole number of pages.
pub open spec fn page_rounded(bytes: nat) -> nat {
    ((bytes + 4095) / 4096) * 4096
}

/// The capacity, in samples, of an allocation that holds `required` samples
/// rounded up to whole pages.
pub open spec fn grown_capacity<T>(required: nat) -> nat {
    page_rounded(required * sample_bytes::<T>()) / sample_bytes::<T>()
}

/// Whether `samples` samples, in bytes and rounded up to pages, fit in `usize`.
pub open spec fn fits_in_memory<T>(samples: int) -> bool {
    0 <= samples && samples * sample_bytes::<T>() + 4095 <= usize::MAX
}

/// A number of samples that fits in memory is itself far from `usize::MAX`.
pub proof fn lemma_fits_in_memory<T>(samples: int)
    requires
        fits_in_memory::<T>(samples),
    ensures
        samples + 4095 <= usize::MAX,
{
    let s = sample_bytes::<T>();
    assert(samples <= samples * s) by (nonlinear_arith)
        requires
            s >= 1,
            samples >= 0,
    {
    }
}

/// A page-rounded allocation holds at least the samples it was asked for,
/// and no more than that plus one page.
pub proof fn lemma_grown_capacity<T>(required: nat)
    ensures
        required <= grown_capacity::<T>(required),
        grown_capacity::<T>(required) * sample_bytes::<T>() <= page_rounded(required * sample_bytes::<T>()),
{
    let s = sample_bytes::<T>();
    let b = required * s;
    assert(s >= 1);
    assert(b <= page_rounded(b)) by (nonlinear_arith)
        requires
            b >= 0,
    {
    }
    let p = page_rounded(b);
    vstd::arithmetic::div_mod::lemma_div_is_ordered(b as int, p as int, s as int);
    vstd::arithmetic::div_mod::lemma_div_by_multiple(required as int, s as int);
    assert(required <= p / s);
    vstd::arithmetic::div_mod::lemma_fundamental_div_mod(p as int, s as int);
    assert((p / s) * s <= p) by (nonlinear_arith)
        requires
            p == s * (p / s) + p % s,
            p % s >= 0,
    {
    }
}

/// The number of bytes a sample of type `T` occupies (see `sample_bytes`).
pub fn sample_size<T>() -> (r: usize)
    ensures
        r as nat == sample_bytes::<T>(),
        r >= 1,
{
    let s = core::mem::size_of::<T>();
    if s == 0 {
        1
    } else {
        s
    }
}

/// `bytes` rounded up to a whole number of 4 KiB pages.
pub fn round_up_to_page(bytes: usize) -> (r: usize)
    requires
        bytes + 4095 <= usize::MAX,
    ensures
        r as nat == page_rounded(bytes as nat),
{
    let x: usize = bytes + 4095;
    let r: usize = x & !4095usize;
    assert(r == (x / 4096) * 4096) by (bit_vector)
        requires
            r == x & !4095usize,
    ;
    r
}

/// The capacity, in samples, of a page-rounded allocation for `required` samples.
pub fn grow_capacity<T>(required: usize) -> (r: usize)
    requires
        fits_in_memory::<T>(required as int),
    ensures
        r as nat == grown_capacity::<T>(required as nat),
        required <= r,
{
    let s = sample_size::<T>();
    assert(required * s <= required * s + 4095);
    let bytes: usize = required * s;
    let rounded = round_up_to_page(bytes);
    proof {
        lemma_grown_capacity::<T>(required as nat);
    }
    rounded / s
}

/// Sample buffer with a fixed allocation of `capacity` samples, of which the
/// first `len` are in use. Its samples are aligned as `T` is, and no more.
pub struct AlignedSampleVec<T> {
    /// The whole allocation; its length is the capacity.
    buffer: Vec<T>,
    /// Current capacity in number of samples.
    capacity: usize,
    /// Current length in number of samples.
    length: usize,
}

impl<T> View for AlignedSampleVec<T> {
    type V = Seq<T>;

    /// The samples in use.
    closed spec fn view(&self) -> Seq<T> {
        self.buffer@.subrange(0, self.length as int)
    }
}

impl<T: Copy + Default> AlignedSampleVec<T> {
    /// The whole allocation, including the samples past the length.
    pub closed spec fn storage(&self) -> Seq<T> {
        self.buffer@
    }

    /// The capacity in samples.
    pub closed spec fn cap(&self) -> nat {
        self.capacity as nat
    }

    /// Internal consistency of the buffer.
    pub closed spec fn wf(&self) -> bool {
        &&& self.buffer@.len() == self.capacity
        &&& self.length <= self.capacity
    }

    /// Facts that follow from well-formedness.
    pub proof fn lemma_wf(&self)
        requires
            self.wf(),
        ensures
            self.storage().len() == self.cap(),
            self@.len() <= self.cap(),
            self@ == self.storage().subrange(0, self@.len() as int),
            self.cap() <= usize::MAX,
    {
    }

    /// Creates an empty buffer with room for `capacity` samples.
    pub fn new(capacity: usize) -> (r: Self)
        ensures
            r.wf(),
            r@ == Seq::<T>::empty(),
            r.cap() == capacity,
    {
        let fill = T::default();
        let buffer = vec![fill; capacity];
        AlignedSampleVec { buffer, capacity, length: 0 }
    }

    /// The capacity in samples.
    pub fn capacity(&self) -> (r: usize)
        requires
            self.wf(),
        ensures
            r == self.cap(),
    {
        self.capacity
    }

    /// The number of samples in use.
    pub fn len(&self) -> (r: usize)
        requires
            self.wf(),
        ensures
            r == self@.len(),
    {
        self.length
    }

    /// Whether no sample is in use.
    pub fn is_empty(&self) -> (r: bool)
        requires
            self.wf(),
        ensures
            r <==> self@.len() == 0,
    {
        self.length == 0
    }

    /// Sets the number of samples in use; the samples already in the
    /// allocation become the contents.
    pub fn set_len(&mut self, new_len: usize)
        requires
            old(self).wf(),
            new_len <= old(self).cap(),
        ensures
            final(self).wf(),
            final(self).storage() == old(self).storage(),
            final(self).cap() == old(self).cap(),
            final(self)@ == old(self).storage().subrange(0, new_len as int),
    {
        self.length = new_len;
    }

    /// The samples in use.
    pub fn as_slice(&self) -> (r: &[T])
        requires
            self.wf(),
        ensures
            r@ == self@,
    {
        let (head, _tail) = self.buffer.as_slice().split_at(self.length);
        head
    }

    /// The samples in use, for writing. What is written through the slice
    /// becomes the samples in use (Rust keeps the slice's length; the
    /// clauses on the final state are stated under that fact).
    pub fn as_mut_slice(&mut self) -> (r: &mut [T])
        requires
            old(self).wf(),
        ensures
            r@ == old(self)@,
            final(r)@.len() == r@.len() ==> {
                &&& final(self).wf()
                &&& final(self).cap() == old(self).cap()
                &&& final(self)@ == final(r)@
                &&& final(self).storage() == final(r)@ + old(self).storage().subrange(
                    old(self)@.len() as int,
                    old(self).cap() as int,
                )
            },
    {
        let len = self.length;
        let whole = self.buffer.as_mut_slice();
        let (head, _tail) = whole.split_at_mut(len);
        head
    }

    /// Ensures room for `additional` samples past the current length,
    /// reallocating to a page-rounded capacity when there is not.
    pub fn reserve(&mut self, additional: usize)
        requires
            old(self).wf(),
            fits_in_memory::<T>(old(self)@.len() + additional),
        ensures
            final(self).wf(),
            final(self)@ == old(self)@,
            old(self)@.len() + additional <= old(self).cap() ==> final(self).storage() == old(self).storage() && final(self).cap() == old(self).cap(),
            old(self)@.len() + additional > old(self).cap() ==> final(self).cap() == grown_capacity::<
                T,
            >((old(self)@.len() + additional) as nat),
            final(self).cap() >= old(self)@.len() + additional,
    {
        proof {
            lemma_fits_in_memory::<T>(self.length + additional);
        }
        let required = self.length + additional;
        if required <= self.capacity {
            return;
        }
        let new_capacity = grow_capacity::<T>(required);
        let mut new_buffer = AlignedSampleVec::<T>::new(new_capacity);
        let mut i: usize = 0;
        while i < self.length
            invariant
                self.wf(),
                new_buffer.wf(),
                new_buffer.cap() == new_capacity,
                self.length <= new_capacity,
                new_buffer@.len() == 0,
                i <= self.length,
                forall|k: int| 0 <= k < i ==> #[trigger] new_buffer.buffer@[k] == self.buffer@[k],
            decreases self.length - i,
        {
            new_buffer.buffer.set(i, self.buffer[i]);
            i += 1;
        }
        new_buffer.length = self.length;
        assert(new_buffer@ =~= self@);
        *self = new_buffer;
    }

    /// Resizes to `new_len` samples, filling new ones with `value`.
    pub fn resize(&mut self, new_len: usize, value: T)
        requires
            old(self).wf(),
            fits_in_memory::<T>(new_len as int),
        ensures
            final(self).wf(),
            new_len <= old(self)@.len() ==> final(self)@ == old(self)@.subrange(0, new_len as int),
            new_len > old(self)@.len() ==> final(self)@ == old(self)@ + Seq::new(
                (new_len - old(self)@.len()) as nat,
                |i: int| value,
            ),
            new_len <= old(self).cap() ==> final(self).cap() == old(self).cap(),
            new_len > old(self).cap() ==> final(self).cap() == grown_capacity::<T>(new_len as nat),
    {
        if new_len > self.capacity {
            self.reserve(new_len - self.length);
        }
        let ghost before = self@;
        let cap_before = self.capacity;
        let old_len = self.length;
        if new_len > old_len {
            let mut i: usize = old_len;
            while i < new_len
                invariant
                    self.wf(),
                    self.length == old_len,
                    self.capacity == cap_before,
                    new_len <= self.cap(),
                    old_len <= i <= new_len,
                    forall|k: int| 0 <= k < old_len ==> #[trigger] self.buffer@[k] == before[k],
                    forall|k: int| old_len <= k < i ==> #[trigger] self.buffer@[k] == value,
                decreases new_len - i,
            {
                self.buffer.set(i, value);
                i += 1;
            }
        }
        self.length = new_len;
        proof {
            if new_len > old_len {
                assert(self@ =~= before + Seq::new((new_len - old_len) as nat, |i: int| value));
            } else {
                assert(self@ =~= before.subrange(0, new_len as int));
            }
        }
    }

    /// Appends a sample, growing the allocation when it is full.
    pub fn push(&mut self, value: T)
        requires
            old(self).wf(),
            old(self)@.len() == old(self).cap() ==> fits_in_memory::<T>(
                old(self).cap() + if old(self).cap() > 32 {
                    old(self).cap() as int
                } else {
                    32
                },
            ),
        ensures
            final(self).wf(),
            final(self)@ == old(self)@.push(value),
            old(self)@.len() < old(self).cap() ==> final(self).cap() == old(self).cap(),
            old(self)@.len() == old(self).cap() ==> final(self).cap() == grown_capacity::<T>(
                (old(self).cap() + if old(self).cap() > 32 {
                    old(self).cap() as int
                } else {
                    32
                }) as nat,
            ),
    {
        if self.length >= self.capacity {
            let grow = if self.capacity > 32 {
                self.capacity
            } else {
                32
            };
            self.reserve(grow);
        }
        let ghost before = self@;
        self.buffer.set(self.length, value);
        self.length = self.length + 1;
        assert(self@ =~= before.push(value));
    }

    /// Marks every sample as unused.
    pub fn clear(&mut self)
        requires
            old(self).wf(),
        ensures
            final(self).wf(),
            final(self)@ == Seq::<T>::empty(),
            final(self).storage() == old(self).storage(),
            final(self).cap() == old(self).cap(),
    {
        self.length = 0;
        assert(self@ =~= Seq::<T>::empty());
    }

    /// Copies `src` into the buffer starting at `offset`, growing the
    /// allocation and the length as needed.
    pub fn copy_from_slice_at(&mut self, offset: usize, src: &[T])
        requires
            old(self).wf(),
            offset + src@.len() <= old(self).cap() || fits_in_memory::<T>(offset + src@.len()),
        ensures
            final(self).wf(),
            final(self)@.len() == if offset + src@.len() > old(self)@.len() {
                (offset + src@.len()) as nat
            } else {
                old(self)@.len()
            },
            final(self).cap() == if offset + src@.len() > old(self).cap() {
                grown_capacity::<T>((offset + src@.len()) as nat)
            } else {
                old(self).cap()
            },
            forall|i: int|
                offset <= i < offset + src@.len() ==> #[trigger] final(self)@[i] == src@[i - offset],
            forall|i: int|
                0 <= i < old(self)@.len() && !(offset <= i < offset + src@.len()) ==> #[trigger] final(self)@[i] == old(self)@[i],
            offset + src@.len() <= old(self).cap() ==> forall|i: int|
                0 <= i < old(self).cap() && !(offset <= i < offset + src@.len()) ==> #[trigger] final(self).storage()[i] == old(self).storage()[i],
    {
        proof {
            if offset + src@.len() > self.cap() {
                lemma_fits_in_memory::<T>(offset + src@.len());
            }
        }
        let required_len = offset + src.len();
        if required_len > self.capacity {
            self.reserve(required_len - self.length);
        }
        let ghost mid = self.storage();
        let mut i: usize = 0;
        while i < src.len()
            invariant
                self.wf(),
                self.length == old(self).length,
                self@.len() == old(self)@.len(),
                mid.len() == self.cap(),
                required_len == offset + src@.len(),
                required_len <= self.cap(),
                i <= src@.len(),
                forall|k: int| offset <= k < offset + i ==> #[trigger] self.buffer@[k] == src@[k - offset],
                forall|k: int|
                    0 <= k < self.cap() && !(offset <= k < offset + i) ==> #[trigger] self.buffer@[k]
                        == mid[k],
            decreases src@.len() - i,
        {
            self.buffer.set(offset + i, src[i]);
            i += 1;
        }
        if required_len > self.length {
            self.length = required_len;
        }
    }

    /// Copies the samples in `src_range` to `dest`, as `memmove` does; the
    /// destination may reach past the length, up to the capacity.
    pub fn copy_within(&mut self, src_range: core::ops::Range<usize>, dest: usize)
        requires
            old(self).wf(),
            src_range.start <= src_range.end,
            src_range.end <= old(self)@.len(),
            dest + (src_range.end - src_range.start) <= old(self).cap(),
        ensures
            final(self).wf(),
            final(self).cap() == old(self).cap(),
            final(self)@.len() == old(self)@.len(),
            forall|i: int|
                0 <= i < old(self).cap() ==> #[trigger] final(self).storage()[i] == if dest <= i < dest
                    + (src_range.end - src_range.start) {
                    old(self).storage()[src_range.start + i - dest]
                } else {
                    old(self).storage()[i]
                },
    {
        let start = src_range.start;
        let end = src_range.end;
        let n = end - start;
        let ghost orig = self.storage();
        if dest <= start {
            let mut i: usize = 0;
            while i < n
                invariant
                    self.wf(),
                    self.cap() == old(self).cap(),
                    self.length == old(self).length,
                    orig == old(self).storage(),
                    dest <= start,
                    start + n <= self.cap(),
                    dest + n <= self.cap(),
                    i <= n,
                    forall|k: int|
                        0 <= k < self.cap() ==> #[trigger] self.buffer@[k] == if dest <= k < dest + i {
                            orig[start + k - dest]
                        } else {
                            orig[k]
                        },
                decreases n - i,
            {
                let v = self.buffer[start + i];
                self.buffer.set(dest + i, v);
                i += 1;
            }
        } else {
            let mut i: usize = n;
            while i > 0
                invariant
                    self.wf(),
                    self.cap() == old(self).cap(),
                    self.length == old(self).length,
                    orig == old(self).storage(),
                    start < dest,
                    start + n <= self.cap(),
                    dest + n <= self.cap(),
                    i <= n,
                    forall|k: int|
                        0 <= k < self.cap() ==> #[trigger] self.buffer@[k] == if dest + i <= k < dest
                            + n {
                            orig[start + k - dest]
                        } else {
                            orig[k]
                        },
                decreases i,
            {
                let v = self.buffer[start + i - 1];
                self.buffer.set(dest + i - 1, v);
                i -= 1;
            }
        }
    }
}

} // verus!
