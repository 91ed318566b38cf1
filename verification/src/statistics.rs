//! Aggregated statistics over a snapshot: how many pages there are in all,
//! and how many carry the zero-page or the recently-active flag.

use vstd::prelude::*;
use crate::words::{ACTIVE_PAGE_MASK, ZERO_PAGE_MASK};
use crate::{ProcessMemory, Segment};

verus! {

/// How many words of a segment carry any bit of `mask`.
pub open spec fn count_flagged(words: Seq<u64>, mask: u64) -> int
    decreases words.len(),
{
    if words.len() == 0 {
        0
    } else {
        count_flagged(words.drop_last(), mask) + (if words.last() & mask != 0 {
            1int
        } else {
            0int
        })
    }
}

/// The page count of a whole snapshot: the sum of its segments' lengths.
pub open spec fn total_pages_spec(segments: Seq<Segment>) -> int
    decreases segments.len(),
{
    if segments.len() == 0 {
        0
    } else {
        total_pages_spec(segments.drop_last()) + segments.last().page_flags@.len()
    }
}

/// How many pages of a whole snapshot carry any bit of `mask`.
pub open spec fn flagged_pages_spec(segments: Seq<Segment>, mask: u64) -> int
    decreases segments.len(),
{
    if segments.len() == 0 {
        0
    } else {
        flagged_pages_spec(segments.drop_last(), mask) + count_flagged(
            segments.last().page_flags@,
            mask,
        )
    }
}

/// No more words carry a flag than there are words.
proof fn lemma_count_flagged_bounds(words: Seq<u64>, mask: u64)
    ensures
        0 <= count_flagged(words, mask) <= words.len(),
    decreases words.len(),
{
    if words.len() > 0 {
        lemma_count_flagged_bounds(words.drop_last(), mask);
    }
}

/// No more pages carry a flag than there are pages, and neither count is
/// negative.
proof fn lemma_flagged_pages_bounds(segments: Seq<Segment>, mask: u64)
    ensures
        0 <= flagged_pages_spec(segments, mask) <= total_pages_spec(segments),
    decreases segments.len(),
{
    if segments.len() > 0 {
        lemma_flagged_pages_bounds(segments.drop_last(), mask);
        lemma_count_flagged_bounds(segments.last().page_flags@, mask);
    }
}

/// A prefix of the segments never counts more pages than the whole.
proof fn lemma_total_pages_prefix(segments: Seq<Segment>, i: int)
    requires
        0 <= i <= segments.len(),
    ensures
        total_pages_spec(segments.take(i)) <= total_pages_spec(segments),
    decreases segments.len() - i,
{
    if i < segments.len() {
        lemma_total_pages_prefix(segments, i + 1);
        assert(segments.take(i + 1).drop_last() =~= segments.take(i));
        assert(segments.take(i + 1).last() == segments[i]);
    } else {
        assert(segments.take(i) =~= segments);
    }
}

/// The aggregated counts one snapshot yields.
#[derive(Clone, Copy, PartialEq, Eq, Structural, Debug)]
pub struct PageCounts {
    /// Pages in the snapshot, over all segments.
    pub total_pages: u64,
    /// Pages whose persisted word carries the zero-page flag.
    pub zero_pages: u64,
    /// Pages whose persisted word carries the recently-active flag.
    pub active_pages: u64,
}

/// Walks a snapshot and counts its pages: the total, the zero-flagged and
/// the active-flagged, over all segments in order.
pub fn page_analytics(memory: &ProcessMemory) -> (counts: PageCounts)
    requires
        total_pages_spec(memory.segments@) <= u64::MAX,
    ensures
        counts.total_pages == total_pages_spec(memory.segments@),
        counts.zero_pages == flagged_pages_spec(memory.segments@, ZERO_PAGE_MASK),
        counts.active_pages == flagged_pages_spec(memory.segments@, ACTIVE_PAGE_MASK),
{
    let ghost all = memory.segments@;
    let mut total_pages: u64 = 0;
    let mut zero_pages: u64 = 0;
    let mut active_pages: u64 = 0;
    let mut s: usize = 0;
    while s < memory.segments.len()
        invariant
            all == memory.segments@,
            total_pages_spec(all) <= u64::MAX,
            s <= all.len(),
            total_pages == total_pages_spec(all.take(s as int)),
            zero_pages == flagged_pages_spec(all.take(s as int), ZERO_PAGE_MASK),
            active_pages == flagged_pages_spec(all.take(s as int), ACTIVE_PAGE_MASK),
        decreases all.len() - s,
    {
        let segment = &memory.segments[s];
        let ghost words = segment.page_flags@;
        proof {
            lemma_total_pages_prefix(all, s as int + 1);
            lemma_flagged_pages_bounds(all.take(s as int), ZERO_PAGE_MASK);
            lemma_flagged_pages_bounds(all.take(s as int), ACTIVE_PAGE_MASK);
            assert(all.take(s as int + 1).drop_last() =~= all.take(s as int));
            assert(all.take(s as int + 1).last() == all[s as int]);
        }
        let mut p: usize = 0;
        while p < segment.page_flags.len()
            invariant
                all == memory.segments@,
                s < all.len(),
                words == segment.page_flags@,
                words == all[s as int].page_flags@,
                total_pages_spec(all) <= u64::MAX,
                total_pages_spec(all.take(s as int)) + words.len() <= total_pages_spec(all),
                p <= words.len(),
                total_pages == total_pages_spec(all.take(s as int)) + p,
                zero_pages == flagged_pages_spec(all.take(s as int), ZERO_PAGE_MASK)
                    + count_flagged(words.take(p as int), ZERO_PAGE_MASK),
                active_pages == flagged_pages_spec(all.take(s as int), ACTIVE_PAGE_MASK)
                    + count_flagged(words.take(p as int), ACTIVE_PAGE_MASK),
                0 <= flagged_pages_spec(all.take(s as int), ZERO_PAGE_MASK) <= total_pages_spec(
                    all.take(s as int),
                ),
                0 <= flagged_pages_spec(all.take(s as int), ACTIVE_PAGE_MASK) <= total_pages_spec(
                    all.take(s as int),
                ),
                0 <= total_pages_spec(all.take(s as int)),
            decreases words.len() - p,
        {
            let w = segment.page_flags[p];
            proof {
                lemma_count_flagged_bounds(words.take(p as int), ZERO_PAGE_MASK);
                lemma_count_flagged_bounds(words.take(p as int), ACTIVE_PAGE_MASK);
                assert(words.take(p as int + 1).drop_last() =~= words.take(p as int));
                assert(words.take(p as int + 1).last() == words[p as int]);
            }
            total_pages = total_pages + 1;
            if w & ZERO_PAGE_MASK != 0 {
                zero_pages = zero_pages + 1;
            }
            if w & ACTIVE_PAGE_MASK != 0 {
                active_pages = active_pages + 1;
            }
            p += 1;
        }
        proof {
            assert(words.take(words.len() as int) =~= words);
        }
        s += 1;
    }
    proof {
        assert(all.take(all.len() as int) =~= all);
    }
    PageCounts { total_pages, zero_pages, active_pages }
}

} // verus!
