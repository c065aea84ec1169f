//! Choice of the overlap position of the time stretcher.
//!
//! Each new sequence is mixed in at the offset where the incoming samples
//! best match the end of the previous sequence. How well an offset matches
//! is a floating-point score; which offsets get scored, and which one wins,
//! is decided here. Scores are handed in as order keys: integers that order
//! as the scores do.
//!
//! The full search scores every offset and takes the first highest one. The
//! quick search scores a coarse grid of offsets (every `SCAN_STEP`-th one),
//! then every offset within `SCAN_WINDOW` of the best and of the second best
//! grid offset, and takes the first highest score of all it has scored.

use vstd::prelude::*;

verus! {

/// Distance between the offsets of the coarse pass of the quick search.
pub const SCAN_STEP: usize = 16;

/// Half width of the windows that the quick search refines.
pub const SCAN_WINDOW: usize = 8;

/// The first position of the highest key (see `full_seek_offset`).
pub open spec fn is_first_highest(keys: Seq<i64>, r: int) -> bool {
    &&& 0 <= r < keys.len()
    &&& forall|i: int| 0 <= i < keys.len() ==> keys[i] <= keys[r]
    &&& forall|i: int| 0 <= i < r ==> keys[i] < keys[r]
}

/// Full search: `keys[i]` is the key of the score of offset `i`; the result
/// is the first offset with the highest key.
pub fn full_seek_offset(keys: &[i64]) -> (r: usize)
    requires
        keys@.len() >= 1,
    ensures
        is_first_highest(keys@, r as int),
{
    let mut best: usize = 0;
    let mut best_key = keys[0];
    let mut i: usize = 1;
    while i < keys.len()
        invariant
            1 <= i <= keys@.len(),
            best < i,
            best_key == keys@[best as int],
            forall|k: int| 0 <= k < i ==> keys@[k] <= best_key,
            forall|k: int| 0 <= k < best ==> keys@[k] < best_key,
        decreases keys@.len() - i,
    {
        if keys[i] > best_key {
            best = i;
            best_key = keys[i];
        }
        i = i + 1;
    }
    best
}

/// End (exclusive) of the coarse pass for a seek range of `seek_length`.
pub open spec fn coarse_end(seek_length: int) -> int {
    if seek_length >= SCAN_WINDOW + 1 {
        seek_length - (SCAN_WINDOW + 1)
    } else {
        0
    }
}

/// How many offsets the coarse pass scores: the multiples of `SCAN_STEP`,
/// from `SCAN_STEP` on, below `coarse_end`.
pub open spec fn grid_count(seek_length: int) -> int {
    let ce = coarse_end(seek_length);
    if ce >= 1 {
        (ce - 1) / (SCAN_STEP as int)
    } else {
        0
    }
}

/// First offset of the window refined around offset `c`.
pub open spec fn window_lo(c: int) -> int {
    if c >= SCAN_WINDOW {
        c - SCAN_WINDOW
    } else {
        0
    }
}

/// End (exclusive) of the window refined around offset `c`.
pub open spec fn window_hi(c: int, seek_length: int) -> int {
    if c + SCAN_WINDOW + 1 < seek_length {
        c + SCAN_WINDOW + 1
    } else {
        seek_length
    }
}

/// The leading (offset, key) pair of a sequence of scored offsets: the
/// first one with the highest key, or `(SCAN_WINDOW, floor)` when no key is
/// above `floor`.
pub open spec fn leader(evals: Seq<(usize, i64)>, floor: i64) -> (usize, i64)
    decreases evals.len(),
{
    if evals.len() == 0 {
        (SCAN_WINDOW, floor)
    } else {
        let prev = leader(evals.drop_last(), floor);
        if evals.last().1 > prev.1 {
            evals.last()
        } else {
            prev
        }
    }
}

/// The best and the second best (offset, key) pairs of the coarse pass:
/// a key above the best makes the best the second best; else a key above
/// the second best replaces it. Both start as `(SCAN_WINDOW, floor)`.
pub open spec fn top_two(evals: Seq<(usize, i64)>, floor: i64) -> ((usize, i64), (usize, i64))
    decreases evals.len(),
{
    if evals.len() == 0 {
        ((SCAN_WINDOW, floor), (SCAN_WINDOW, floor))
    } else {
        let prev = top_two(evals.drop_last(), floor);
        let e = evals.last();
        if e.1 > prev.0.1 {
            (e, prev.0)
        } else if e.1 > prev.1.1 {
            (prev.0, e)
        } else {
            prev
        }
    }
}

/// Whether offset `o` has been scored in `evals`.
pub open spec fn is_scored(evals: Seq<(usize, i64)>, o: int) -> bool {
    exists|i: int| 0 <= i < evals.len() && #[trigger] evals[i].0 == o
}

/// Whether every offset in `lo .. hi` other than `except` has been scored
/// in `evals`.
pub open spec fn covers(evals: Seq<(usize, i64)>, lo: int, hi: int, except: int) -> bool {
    forall|o: int| lo <= o < hi && o != except ==> #[trigger] is_scored(evals, o)
}

/// Whether every offset scored in `evals` lies in `lo .. hi`.
pub open spec fn within(evals: Seq<(usize, i64)>, lo: int, hi: int) -> bool {
    forall|i: int| 0 <= i < evals.len() ==> lo <= #[trigger] evals[i].0 < hi
}

/// Whether the offsets scored in `evals` strictly increase: each is
/// scored once, in ascending order.
pub open spec fn ascending(evals: Seq<(usize, i64)>) -> bool {
    forall|i: int, j: int| 0 <= i < j < evals.len() ==> #[trigger] evals[i].0 < #[trigger] evals[j].0
}

/// Whether `evals` holds the coarse grid offsets `SCAN_STEP, 2 * SCAN_STEP,
/// ...` in order.
pub open spec fn on_grid(evals: Seq<(usize, i64)>) -> bool {
    forall|i: int| 0 <= i < evals.len() ==> #[trigger] evals[i].0 == SCAN_STEP * (i + 1)
}

/// The leader of a sequence is the first of its highest pairs, or
/// `(SCAN_WINDOW, floor)` when no key is above `floor`.
pub proof fn law_leader_is_first_highest(evals: Seq<(usize, i64)>, floor: i64)
    ensures
        leader(evals, floor).1 >= floor,
        forall|i: int| 0 <= i < evals.len() ==> evals[i].1 <= leader(evals, floor).1,
        leader(evals, floor).1 == floor ==> leader(evals, floor) == (SCAN_WINDOW, floor),
        leader(evals, floor).1 > floor ==> exists|i: int|
            #![trigger evals[i]]
            0 <= i < evals.len() && evals[i] == leader(evals, floor) && forall|j: int|
                0 <= j < i ==> evals[j].1 < leader(evals, floor).1,
    decreases evals.len(),
{
    if evals.len() > 0 {
        let prev = evals.drop_last();
        law_leader_is_first_highest(prev, floor);
        let l = leader(evals, floor);
        let lp = leader(prev, floor);
        let n = evals.len() - 1;
        assert forall|i: int| 0 <= i < evals.len() implies evals[i].1 <= l.1 by {
            if i < n {
                assert(evals[i] == prev[i]);
            }
        }
        if l.1 > floor {
            if evals.last().1 > lp.1 {
                assert forall|j: int| 0 <= j < n implies evals[j].1 < l.1 by {
                    assert(evals[j] == prev[j]);
                }
                assert(evals[n] == l);
            } else {
                let i = choose|i: int|
                    #![trigger prev[i]]
                    0 <= i < prev.len() && prev[i] == lp && forall|j: int|
                        0 <= j < i ==> prev[j].1 < lp.1;
                assert(evals[i] == prev[i]);
                assert forall|j: int| 0 <= j < i implies evals[j].1 < l.1 by {
                    assert(evals[j] == prev[j]);
                }
            }
        }
    }
}

/// The best pair of the coarse pass is the leader of its scores.
proof fn lemma_top_two_leader(evals: Seq<(usize, i64)>, floor: i64)
    ensures
        top_two(evals, floor).0 == leader(evals, floor),
    decreases evals.len(),
{
    if evals.len() > 0 {
        lemma_top_two_leader(evals.drop_last(), floor);
    }
}

/// Scoring one more pair moves the leader to it exactly when its key is
/// above the leader's.
proof fn lemma_leader_push(evals: Seq<(usize, i64)>, e: (usize, i64), floor: i64)
    ensures
        leader(evals.push(e), floor) == if e.1 > leader(evals, floor).1 {
            e
        } else {
            leader(evals, floor)
        },
{
    assert(evals.push(e).drop_last() =~= evals);
}

/// One more coarse pair updates the best two as `top_two` says.
proof fn lemma_top_two_push(evals: Seq<(usize, i64)>, e: (usize, i64), floor: i64)
    ensures
        top_two(evals.push(e), floor) == {
            let prev = top_two(evals, floor);
            if e.1 > prev.0.1 {
                (e, prev.0)
            } else if e.1 > prev.1.1 {
                (prev.0, e)
            } else {
                prev
            }
        },
{
    assert(evals.push(e).drop_last() =~= evals);
}

/// A pushed pair keeps the old coverage and adds its own offset.
proof fn lemma_covers_push(evals: Seq<(usize, i64)>, e: (usize, i64), lo: int, hi: int, except: int)
    requires
        covers(evals, lo, hi, except),
        e.0 == hi,
    ensures
        covers(evals.push(e), lo, hi + 1, except),
{
    let n = evals.push(e);
    assert forall|o: int| lo <= o < hi + 1 && o != except implies #[trigger] is_scored(n, o) by {
        if o < hi {
            assert(is_scored(evals, o));
            let i = choose|i: int| 0 <= i < evals.len() && #[trigger] evals[i].0 == o;
            assert(n[i] == evals[i]);
        } else {
            assert(n[evals.len() as int] == e);
        }
    }
}

/// Pushing an offset past all earlier ones keeps the offsets ascending.
proof fn lemma_ascending_push(evals: Seq<(usize, i64)>, e: (usize, i64), lo: int, hi: int)
    requires
        ascending(evals),
        within(evals, lo, hi),
        e.0 == hi,
    ensures
        ascending(evals.push(e)),
{
    let n = evals.push(e);
    assert forall|i: int, j: int| 0 <= i < j < n.len() implies #[trigger] n[i].0 < #[trigger] n[j].0 by {
        assert(n[i] == evals[i]);
        if j < evals.len() {
            assert(n[j] == evals[j]);
        } else {
            assert(n[j] == e);
        }
    }
}

/// Skipping the excepted offset keeps the coverage.
proof fn lemma_covers_skip(evals: Seq<(usize, i64)>, lo: int, hi: int, except: int)
    requires
        covers(evals, lo, hi, except),
        hi == except,
    ensures
        covers(evals, lo, hi + 1, except),
{
}

/// Coverage of a wider range gives coverage of a narrower one.
proof fn lemma_covers_narrow(evals: Seq<(usize, i64)>, lo: int, hi: int, hi2: int, except: int)
    requires
        covers(evals, lo, hi, except),
        hi2 <= hi,
    ensures
        covers(evals, lo, hi2, except),
{
}

/// Coverage by a part of a sequence is coverage by the whole.
proof fn lemma_covers_concat(
    a: Seq<(usize, i64)>,
    w: Seq<(usize, i64)>,
    b: Seq<(usize, i64)>,
    lo: int,
    hi: int,
    except: int,
)
    requires
        covers(w, lo, hi, except),
    ensures
        covers(a + w + b, lo, hi, except),
{
    let e = a + w + b;
    assert forall|o: int| lo <= o < hi && o != except implies #[trigger] is_scored(e, o) by {
        assert(is_scored(w, o));
        let i = choose|i: int| 0 <= i < w.len() && #[trigger] w[i].0 == o;
        assert(e[a.len() + i] == w[i]);
    }
}

/// The pass that the quick search is in.
#[derive(Debug, Clone, Copy, PartialEq, Eq, Structural)]
pub enum SeekPass {
    /// Scoring the coarse grid.
    Coarse,
    /// Refining around the best grid offset.
    AroundBest,
    /// Refining around the second best grid offset.
    AroundSecond,
    /// Nothing left to score.
    Done,
}

/// The quick search, one scored offset at a time: `next_offset` names the
/// offset to score next, `record` takes its key, and `best_offset` is the
/// winner so far.
pub struct QuickSeek {
    /// Number of offsets in the seek range.
    seek_length: usize,
    /// Key that a score must exceed to count.
    floor: i64,
    /// Current pass.
    pass: SeekPass,
    /// Offset to score next.
    pos: usize,
    /// End (exclusive) of the current refinement window.
    end: usize,
    /// Best offset so far and its key.
    best_offs: usize,
    best_key: i64,
    /// Second best offset of the coarse pass and its key.
    second_offs: usize,
    second_key: i64,
    /// Pairs scored in the coarse pass.
    coarse: Ghost<Seq<(usize, i64)>>,
    /// Pairs scored around the best grid offset.
    around_best: Ghost<Seq<(usize, i64)>>,
    /// Pairs scored around the second best grid offset.
    around_second: Ghost<Seq<(usize, i64)>>,
}

impl QuickSeek {
    /// Number of offsets in the seek range.
    pub closed spec fn seek_length(&self) -> int {
        self.seek_length as int
    }

    /// Key that a score must exceed to count.
    pub closed spec fn floor(&self) -> i64 {
        self.floor
    }

    /// Every (offset, key) pair scored so far, in order.
    pub closed spec fn evaluated(&self) -> Seq<(usize, i64)> {
        self.coarse@ + self.around_best@ + self.around_second@
    }

    /// The offset to score next, `None` when the search is over.
    pub closed spec fn candidate(&self) -> Option<usize> {
        if self.pass == SeekPass::Done {
            None
        } else {
            Some(self.pos)
        }
    }

    /// What is left of the search: the offsets before the end of the
    /// current pass, plus a full window for each refinement still to come.
    closed spec fn measure(&self) -> int {
        let w = 2 * SCAN_WINDOW + 1;
        let left = |a: int| if a > 0 {
            a
        } else {
            0
        };
        match self.pass {
            SeekPass::Coarse => left(coarse_end(self.seek_length as int) - self.pos) + 2 * w,
            SeekPass::AroundBest => left(self.end - self.pos) + w,
            SeekPass::AroundSecond => left(self.end - self.pos),
            SeekPass::Done => 0,
        }
    }

    /// A bound on how many more offsets the search scores.
    pub closed spec fn remaining(&self) -> nat {
        self.measure() as nat
    }

    /// Well-formedness: where each pass stands.
    pub closed spec fn wf(&self) -> bool {
        let s = self.seek_length as int;
        let ce = coarse_end(s);
        let c = self.coarse@;
        let w2 = self.around_best@;
        let w3 = self.around_second@;
        let cb = top_two(c, self.floor).0.0 as int;
        let cs = top_two(c, self.floor).1.0 as int;
        let coarse_done = SCAN_STEP * (c.len() + 1) >= ce && (c.len() == 0 || SCAN_STEP
            * c.len() < ce) && top_two(c, self.floor).1 == (self.second_offs, self.second_key);
        &&& s + 2 * SCAN_STEP <= usize::MAX
        &&& self.best_offs <= s + SCAN_WINDOW
        &&& self.second_offs <= s + SCAN_WINDOW
        &&& on_grid(c)
        &&& ascending(w2)
        &&& ascending(w3)
        &&& within(self.evaluated(), 0, s)
        &&& leader(self.evaluated(), self.floor) == (self.best_offs, self.best_key)
        &&& match self.pass {
            SeekPass::Coarse => {
                &&& w2.len() == 0
                &&& w3.len() == 0
                &&& self.pos == SCAN_STEP * (c.len() + 1)
                &&& self.pos < ce
                &&& top_two(c, self.floor) == ((self.best_offs, self.best_key), (
                    self.second_offs,
                    self.second_key,
                ))
            },
            SeekPass::AroundBest => {
                &&& coarse_done
                &&& w3.len() == 0
                &&& self.end == window_hi(cb, s)
                &&& window_lo(cb) <= self.pos < self.end
                &&& self.pos != self.best_offs
                &&& (self.best_offs == cb || self.best_offs < self.pos)
                &&& within(w2, window_lo(cb), self.pos as int)
                &&& covers(w2, window_lo(cb), self.pos as int, cb)
            },
            SeekPass::AroundSecond => {
                &&& coarse_done
                &&& within(w2, window_lo(cb), window_hi(cb, s))
                &&& covers(w2, window_lo(cb), window_hi(cb, s), cb)
                &&& self.end == window_hi(cs, s)
                &&& window_lo(cs) <= self.pos < self.end
                &&& self.pos != cs
                &&& within(w3, window_lo(cs), self.pos as int)
                &&& covers(w3, window_lo(cs), self.pos as int, cs)
            },
            SeekPass::Done => {
                &&& coarse_done
                &&& within(w2, window_lo(cb), window_hi(cb, s))
                &&& covers(w2, window_lo(cb), window_hi(cb, s), cb)
                &&& within(w3, window_lo(cs), window_hi(cs, s))
                &&& covers(w3, window_lo(cs), window_hi(cs, s), cs)
            },
        }
    }

    /// A quick search over `seek_length` offsets that has scored nothing;
    /// only keys above `floor` count.
    pub fn new(seek_length: usize, floor: i64) -> (r: Self)
        requires
            seek_length + 2 * SCAN_STEP <= usize::MAX,
        ensures
            r.wf(),
            r.seek_length() == seek_length,
            r.floor() == floor,
            r.evaluated() == Seq::<(usize, i64)>::empty(),
            r.remaining() <= coarse_end(seek_length as int) + 2 * (2 * SCAN_WINDOW + 1),
    {
        let mut q = QuickSeek {
            seek_length,
            floor,
            pass: SeekPass::Coarse,
            pos: SCAN_STEP,
            end: 0,
            best_offs: SCAN_WINDOW,
            best_key: floor,
            second_offs: SCAN_WINDOW,
            second_key: floor,
            coarse: Ghost(Seq::empty()),
            around_best: Ghost(Seq::empty()),
            around_second: Ghost(Seq::empty()),
        };
        proof {
            assert(q.evaluated() =~= Seq::<(usize, i64)>::empty());
        }
        q.settle();
        q
    }

    /// Moves on to the next offset that is to be scored: past the end of a
    /// pass into the next one, and past the offset that a refinement window
    /// is centred on.
    fn settle(&mut self)
        requires
            old(self).seek_length + 2 * SCAN_STEP <= usize::MAX,
            old(self).best_offs <= old(self).seek_length + SCAN_WINDOW,
            old(self).second_offs <= old(self).seek_length + SCAN_WINDOW,
            on_grid(old(self).coarse@),
            ascending(old(self).around_best@),
            ascending(old(self).around_second@),
            within(old(self).evaluated(), 0, old(self).seek_length as int),
            leader(old(self).evaluated(), old(self).floor) == (old(self).best_offs, old(self).best_key),
            ({
                let s = old(self).seek_length as int;
                let c = old(self).coarse@;
                let w2 = old(self).around_best@;
                let w3 = old(self).around_second@;
                let floor = old(self).floor;
                let cb = top_two(c, floor).0.0 as int;
                let cs = top_two(c, floor).1.0 as int;
                let ce = coarse_end(s);
                let coarse_done = SCAN_STEP * (c.len() + 1) >= ce && (c.len() == 0 || SCAN_STEP
                    * c.len() < ce) && top_two(c, floor).1 == (
                    old(self).second_offs,
                    old(self).second_key,
                );
                match old(self).pass {
                    SeekPass::Coarse => {
                        &&& w2.len() == 0
                        &&& w3.len() == 0
                        &&& old(self).pos == SCAN_STEP * (c.len() + 1)
                        &&& (c.len() == 0 || SCAN_STEP * c.len() < ce)
                        &&& top_two(c, floor) == ((old(self).best_offs, old(self).best_key), (
                            old(self).second_offs,
                            old(self).second_key,
                        ))
                    },
                    SeekPass::AroundBest => {
                        &&& coarse_done
                        &&& w3.len() == 0
                        &&& old(self).end == window_hi(cb, s)
                        &&& window_lo(cb) <= old(self).pos
                        &&& (old(self).pos <= old(self).end || w2.len() == 0)
                        &&& (old(self).best_offs == cb || old(self).best_offs < old(self).pos)
                        &&& within(w2, window_lo(cb), old(self).pos as int)
                        &&& covers(w2, window_lo(cb), old(self).pos as int, cb)
                    },
                    SeekPass::AroundSecond => {
                        &&& coarse_done
                        &&& within(w2, window_lo(cb), window_hi(cb, s))
                        &&& covers(w2, window_lo(cb), window_hi(cb, s), cb)
                        &&& old(self).end == window_hi(cs, s)
                        &&& window_lo(cs) <= old(self).pos
                        &&& (old(self).pos <= old(self).end || w3.len() == 0)
                        &&& within(w3, window_lo(cs), old(self).pos as int)
                        &&& covers(w3, window_lo(cs), old(self).pos as int, cs)
                    },
                    SeekPass::Done => false,
                }
            }),
        ensures
            final(self).wf(),
            final(self).seek_length == old(self).seek_length,
            final(self).floor == old(self).floor,
            final(self).evaluated() == old(self).evaluated(),
            final(self).measure() <= old(self).measure(),
            final(self).measure() >= 0,
    {
        let ghost s = self.seek_length as int;
        let ghost floor = self.floor;
        if self.pass == SeekPass::Coarse {
            let ce = if self.seek_length >= SCAN_WINDOW + 1 {
                self.seek_length - (SCAN_WINDOW + 1)
            } else {
                0
            };
            if self.pos < ce {
                return ;
            }
            proof {
                lemma_top_two_leader(self.coarse@, floor);
                assert(self.evaluated() =~= self.coarse@);
                assert(self.around_best@.len() == 0);
            }
            let c = self.best_offs;
            self.pass = SeekPass::AroundBest;
            self.pos = if c >= SCAN_WINDOW {
                c - SCAN_WINDOW
            } else {
                0
            };
            self.end = if c + SCAN_WINDOW + 1 < self.seek_length {
                c + SCAN_WINDOW + 1
            } else {
                self.seek_length
            };
        }
        if self.pass == SeekPass::AroundBest {
            let ghost cb = top_two(self.coarse@, floor).0.0 as int;
            if self.pos < self.end && self.pos == self.best_offs {
                proof {
                    lemma_covers_skip(self.around_best@, window_lo(cb), self.pos as int, cb);
                }
                self.pos = self.pos + 1;
            }
            if self.pos < self.end {
                return ;
            }
            proof {
                assert(within(self.around_best@, window_lo(cb), self.end as int));
                lemma_covers_narrow(
                    self.around_best@,
                    window_lo(cb),
                    self.pos as int,
                    self.end as int,
                    cb,
                );
            }
            let c = self.second_offs;
            self.pass = SeekPass::AroundSecond;
            self.pos = if c >= SCAN_WINDOW {
                c - SCAN_WINDOW
            } else {
                0
            };
            self.end = if c + SCAN_WINDOW + 1 < self.seek_length {
                c + SCAN_WINDOW + 1
            } else {
                self.seek_length
            };
        }
        if self.pass == SeekPass::AroundSecond {
            let ghost cs = top_two(self.coarse@, floor).1.0 as int;
            if self.pos < self.end && self.pos == self.second_offs {
                proof {
                    lemma_covers_skip(self.around_second@, window_lo(cs), self.pos as int, cs);
                }
                self.pos = self.pos + 1;
            }
            if self.pos < self.end {
                return ;
            }
            proof {
                assert(within(self.around_second@, window_lo(cs), self.end as int));
                lemma_covers_narrow(
                    self.around_second@,
                    window_lo(cs),
                    self.pos as int,
                    self.end as int,
                    cs,
                );
            }
            self.pass = SeekPass::Done;
        }
    }

    /// The offset to score next, `None` when the search is over; it is
    /// always inside the seek range.
    pub fn next_offset(&self) -> (r: Option<usize>)
        requires
            self.wf(),
        ensures
            r == self.candidate(),
            r matches Some(o) ==> o < self.seek_length(),
    {
        if self.pass == SeekPass::Done {
            None
        } else {
            Some(self.pos)
        }
    }

    /// Takes the key of the score of the offset that `next_offset` names.
    pub fn record(&mut self, key: i64)
        requires
            old(self).wf(),
            old(self).candidate() is Some,
        ensures
            final(self).wf(),
            final(self).seek_length() == old(self).seek_length(),
            final(self).floor() == old(self).floor(),
            final(self).evaluated() == old(self).evaluated().push(
                (old(self).candidate()->0, key),
            ),
            final(self).remaining() < old(self).remaining(),
    {
        let ghost e = (self.pos, key);
        let ghost floor = self.floor;
        let ghost old_eval = self.evaluated();
        proof {
            lemma_leader_push(old_eval, e, floor);
            assert(within(old_eval.push(e), 0, self.seek_length as int)) by {
                assert forall|i: int| 0 <= i < old_eval.push(e).len() implies 0
                    <= #[trigger] old_eval.push(e)[i].0 < self.seek_length by {
                    if i < old_eval.len() {
                        assert(old_eval.push(e)[i] == old_eval[i]);
                    }
                }
            }
        }
        match self.pass {
            SeekPass::Coarse => {
                proof {
                    lemma_top_two_push(self.coarse@, e, floor);
                    let c = self.coarse@;
                    assert(on_grid(c.push(e))) by {
                        assert forall|i: int| 0 <= i < c.push(e).len() implies #[trigger] c.push(
                            e,
                        )[i].0 == SCAN_STEP * (i + 1) by {
                            if i < c.len() {
                                assert(c.push(e)[i] == c[i]);
                            }
                        }
                    }
                }
                let ghost c = self.coarse@;
                self.coarse = Ghost(c.push(e));
                proof {
                    assert(self.evaluated() =~= old_eval.push(e));
                }
                if key > self.best_key {
                    self.second_offs = self.best_offs;
                    self.second_key = self.best_key;
                    self.best_offs = self.pos;
                    self.best_key = key;
                } else if key > self.second_key {
                    self.second_offs = self.pos;
                    self.second_key = key;
                }
                self.pos = self.pos + SCAN_STEP;
            },
            SeekPass::AroundBest => {
                proof {
                    let cb = top_two(self.coarse@, floor).0.0 as int;
                    let w = self.around_best@;
                    lemma_covers_push(w, e, window_lo(cb), self.pos as int, cb);
                    lemma_ascending_push(w, e, window_lo(cb), self.pos as int);
                    assert(within(w.push(e), window_lo(cb), self.pos + 1)) by {
                        assert forall|i: int| 0 <= i < w.push(e).len() implies window_lo(cb)
                            <= #[trigger] w.push(e)[i].0 < self.pos + 1 by {
                            if i < w.len() {
                                assert(w.push(e)[i] == w[i]);
                            }
                        }
                    }
                }
                let ghost w = self.around_best@;
                self.around_best = Ghost(w.push(e));
                proof {
                    assert(self.evaluated() =~= old_eval.push(e));
                }
                if key > self.best_key {
                    self.best_offs = self.pos;
                    self.best_key = key;
                }
                self.pos = self.pos + 1;
            },
            SeekPass::AroundSecond => {
                proof {
                    let cs = top_two(self.coarse@, floor).1.0 as int;
                    let w = self.around_second@;
                    lemma_covers_push(w, e, window_lo(cs), self.pos as int, cs);
                    lemma_ascending_push(w, e, window_lo(cs), self.pos as int);
                    assert(within(w.push(e), window_lo(cs), self.pos + 1)) by {
                        assert forall|i: int| 0 <= i < w.push(e).len() implies window_lo(cs)
                            <= #[trigger] w.push(e)[i].0 < self.pos + 1 by {
                            if i < w.len() {
                                assert(w.push(e)[i] == w[i]);
                            }
                        }
                    }
                }
                let ghost w = self.around_second@;
                self.around_second = Ghost(w.push(e));
                proof {
                    assert(self.evaluated() =~= old_eval.push(e));
                }
                if key > self.best_key {
                    self.best_offs = self.pos;
                    self.best_key = key;
                }
                self.pos = self.pos + 1;
            },
            SeekPass::Done => {},
        }
        self.settle();
    }

    /// When the quick search is over, its first scores are those of the
    /// coarse grid (every `SCAN_STEP`-th offset from `SCAN_STEP` on, below
    /// `coarse_end`), in order; then come the scores of the window around
    /// the best grid offset, then those of the window around the second
    /// best one, each in ascending order of offset, once each, and covering
    /// its window but the centre.
    pub proof fn law_quick_seek_scores_grid_and_windows(&self)
        requires
            self.wf(),
            self.candidate() is None,
        ensures
            ({
                let s = self.seek_length();
                let e = self.evaluated();
                let n = grid_count(s);
                let pair = top_two(e.take(n), self.floor());
                let cb = pair.0.0 as int;
                let cs = pair.1.0 as int;
                &&& n <= e.len()
                &&& forall|i: int| 0 <= i < n ==> #[trigger] e[i].0 == SCAN_STEP * (i + 1)
                &&& covers(e, window_lo(cb), window_hi(cb, s), cb)
                &&& covers(e, window_lo(cs), window_hi(cs, s), cs)
                &&& exists|m: int|
                    #![trigger e.subrange(n, m)]
                    n <= m <= e.len() && ascending(e.subrange(n, m)) && within(
                        e.subrange(n, m),
                        window_lo(cb),
                        window_hi(cb, s),
                    ) && ascending(e.subrange(m, e.len() as int)) && within(
                        e.subrange(m, e.len() as int),
                        window_lo(cs),
                        window_hi(cs, s),
                    )
            }),
    {
        let s = self.seek_length as int;
        let c = self.coarse@;
        let w2 = self.around_best@;
        let w3 = self.around_second@;
        let e = self.evaluated();
        let ce = coarse_end(s);
        let len = c.len() as int;
        if len == 0 {
            assert(grid_count(s) == 0);
        } else {
            assert((ce - 1) / 16 == len) by (nonlinear_arith)
                requires
                    16 * len <= ce - 1,
                    ce - 1 < 16 * len + 16,
            ;
        }
        assert(grid_count(s) == len);
        assert(e.take(len) =~= c);
        let floor = self.floor;
        let cb = top_two(c, floor).0.0 as int;
        let cs = top_two(c, floor).1.0 as int;
        assert forall|i: int| 0 <= i < len implies #[trigger] e[i].0 == SCAN_STEP * (i + 1) by {
            assert(e[i] == c[i]);
        }
        lemma_covers_concat(c, w2, w3, window_lo(cb), window_hi(cb, s), cb);
        lemma_covers_concat(c + w2, w3, Seq::empty(), window_lo(cs), window_hi(cs, s), cs);
        assert(c + w2 + w3 + Seq::<(usize, i64)>::empty() =~= e);
        let m = len + w2.len();
        assert(e.subrange(len, m) =~= w2);
        assert(e.subrange(m, e.len() as int) =~= w3);
    }

    /// The winning offset so far: the first scored offset with the highest
    /// key, or `SCAN_WINDOW` when no key is above the floor.
    pub fn best_offset(&self) -> (r: usize)
        requires
            self.wf(),
        ensures
            r == leader(self.evaluated(), self.floor()).0,
            r == SCAN_WINDOW || r < self.seek_length(),
    {
        proof {
            let e = self.evaluated();
            let l = leader(e, self.floor);
            law_leader_is_first_highest(e, self.floor);
            if l.1 > self.floor {
                let i = choose|i: int|
                    #![trigger e[i]]
                    0 <= i < e.len() && e[i] == l && forall|j: int| 0 <= j < i ==> e[j].1 < l.1;
                assert(0 <= e[i].0 < self.seek_length);
            }
        }
        self.best_offs
    }
}

} // verus!
