//! Inclusive block ranges split into chunks of bounded size.
use vstd::prelude::*;
use core::ops::RangeInclusive;

verus! {

/// `RangeInclusive::start`: the range's lower bound. Its documentation
/// leaves the value unspecified once the range has been iterated to
/// exhaustion, so the contract speaks only of a range that has not been.
pub assume_specification<Idx>[ RangeInclusive::<Idx>::start ](r: &RangeInclusive<Idx>) -> (s: &Idx)
    ensures
        !r@.exhausted ==> *s == r@.start,
;

/// `RangeInclusive::end`: the range's upper bound. As for `start`, its
/// documentation leaves the value unspecified once the range has been
/// iterated to exhaustion.
pub assume_specification<Idx>[ RangeInclusive::<Idx>::end ](r: &RangeInclusive<Idx>) -> (e: &Idx)
    ensures
        !r@.exhausted ==> *e == r@.end,
;

/// The chunks of the inclusive range `start..=end`: consecutive inclusive
/// ranges that each span at most `step + 1` blocks, the last one ending at
/// `end`. Empty when `start > end`.
pub open spec fn chunks(start: u64, end: u64, step: u64) -> Seq<(u64, u64)>
    decreases end - start,
{
    if start > end {
        Seq::empty()
    } else if end - start <= step {
        seq![(start, end)]
    } else {
        seq![(start, (start + step) as u64)] + chunks((start + step + 1) as u64, end, step)
    }
}

/// An iterator that yields inclusive block ranges of a given step size:
/// each chunk spans `step + 1` blocks, except possibly the last.
#[derive(Debug)]
pub struct BlockRangeInclusiveIter {
    next_start: u64,
    end: u64,
    step: u64,
    done: bool,
}

impl View for BlockRangeInclusiveIter {
    type V = Seq<(u64, u64)>;

    /// The chunks still to be yielded.
    closed spec fn view(&self) -> Seq<(u64, u64)> {
        if self.done {
            Seq::empty()
        } else {
            chunks(self.next_start, self.end, self.step)
        }
    }
}

impl BlockRangeInclusiveIter {
    /// The chunks of `range` of `step + 1` blocks each.
    pub fn new(range: RangeInclusive<u64>, step: u64) -> (r: Self)
        requires
            step < usize::MAX,
        ensures
            !range@.exhausted ==> r@ == chunks(range@.start, range@.end, step),
    {
        let start = *range.start();
        let end = *range.end();
        BlockRangeInclusiveIter { next_start: start, end, step, done: false }
    }

    /// The next chunk, if any.
    pub fn next(&mut self) -> (r: Option<(u64, u64)>)
        ensures
            old(self)@.len() == 0 ==> r is None && final(self)@ == old(self)@,
            old(self)@.len() > 0 ==> r == Some(old(self)@[0]) && final(self)@ == old(self)@.drop_first(),
    {
        if self.done || self.next_start > self.end {
            return None;
        }
        let start = self.next_start;
        if self.end - start <= self.step {
            self.done = true;
            proof {
                assert(old(self)@ == seq![(start, self.end)]);
                assert(old(self)@.drop_first() =~= Seq::<(u64, u64)>::empty());
            }
            Some((start, self.end))
        } else {
            let chunk_end = start + self.step;
            self.next_start = chunk_end + 1;
            proof {
                assert(old(self)@ == seq![(start, chunk_end)] + chunks(self.next_start, self.end, self.step));
                assert(old(self)@.drop_first() =~= chunks(self.next_start, self.end, self.step));
            }
            Some((start, chunk_end))
        }
    }
}

/// The chunks of a range cover it in order: the first starts at `start`,
/// each next one starts right after the previous one ends, each spans at
/// most `step + 1` blocks, and the last ends at `end`.
pub proof fn law_chunks_cover(start: u64, end: u64, step: u64)
    requires
        start <= end,
    ensures
        chunks(start, end, step).len() > 0,
        chunks(start, end, step)[0].0 == start,
        chunks(start, end, step).last().1 == end,
        forall|i: int|
            0 <= i < chunks(start, end, step).len() ==> {
                let c = #[trigger] chunks(start, end, step)[i];
                c.0 <= c.1 && c.1 - c.0 <= step
            },
        forall|i: int|
            0 <= i < chunks(start, end, step).len() - 1 ==> #[trigger] chunks(start, end, step)[i
                + 1].0 == chunks(start, end, step)[i].1 + 1,
    decreases end - start,
{
    if end - start > step {
        let next = (start + step + 1) as u64;
        law_chunks_cover(next, end, step);
        let rest = chunks(next, end, step);
        let all = chunks(start, end, step);
        assert(all == seq![(start, (start + step) as u64)] + rest);
        assert forall|i: int| 0 <= i < all.len() - 1 implies #[trigger] all[i + 1].0 == all[i].1 + 1 by {
            assert(all[i + 1] == rest[i]);
            if i > 0 {
                assert(all[i] == rest[i - 1]);
                assert(rest[(i - 1) + 1].0 == rest[i - 1].1 + 1);
            } else {
                assert(rest[0].0 == start + step + 1);
            }
        }
        assert forall|i: int| 0 <= i < all.len() implies {
            let c = #[trigger] all[i];
            c.0 <= c.1 && c.1 - c.0 <= step
        } by {
            if i > 0 {
                assert(all[i] == rest[i - 1]);
            }
        }
    }
}

} // verus!
