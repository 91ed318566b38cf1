//! Contiguous-run planning for batched page-content reads.
//!
//! Reading page contents one page at a time would cost one seek and read per
//! page. Instead, every maximal run of consecutive present pages is fetched
//! with a single read issued at the run's first page, and the fetched buffer
//! is sliced per page on demand. This module detects the runs, plans the
//! reads, and says which slice of which buffer holds a given page's bytes;
//! the unverified shell only executes the planned reads.

use vstd::prelude::*;
use crate::words::{present, PRESENT_MASK};

verus! {

/// How many consecutive words from index `i` on mark their page present.
pub open spec fn leading_present(words: Seq<u64>, i: int) -> int
    decreases words.len() - i,
{
    if i < 0 || i >= words.len() {
        0
    } else if present(words[i]) {
        1 + leading_present(words, i + 1)
    } else {
        0
    }
}

/// Index `i` begins a maximal run of present pages: its own word is present
/// and it is the first word or follows a non-present one. One content read
/// is issued per fetch point.
pub open spec fn fetch_point(words: Seq<u64>, i: int) -> bool {
    &&& 0 <= i < words.len()
    &&& present(words[i])
    &&& (i == 0 || !present(words[i - 1]))
}

/// The first index of the present run that reaches back from `p`: walking
/// left from `p` while the previous word is present.
pub open spec fn run_start(words: Seq<u64>, p: int) -> int
    decreases p,
{
    if p <= 0 {
        0
    } else if present(words[p - 1]) {
        run_start(words, p - 1)
    } else {
        p
    }
}

/// How many fetch points lie strictly below index `i`; the position in the
/// read plan of the run that starts at `i`, when one does.
pub open spec fn runs_before(words: Seq<u64>, i: int) -> int
    decreases i,
{
    if i <= 0 {
        0
    } else {
        runs_before(words, i - 1) + (if fetch_point(words, i - 1) {
            1int
        } else {
            0int
        })
    }
}

/// A count of leading present words is never negative.
pub(crate) proof fn lemma_leading_present_nonneg(words: Seq<u64>, i: int)
    ensures
        leading_present(words, i) >= 0,
    decreases words.len() - i,
{
    if 0 <= i < words.len() && present(words[i]) {
        lemma_leading_present_nonneg(words, i + 1);
    }
}

/// A run of present words from `i` to `k` with a non-present word (or the
/// end) at `k` pins `leading_present` down to exactly `k - i`.
proof fn lemma_leading_present_characterized(words: Seq<u64>, i: int, k: int)
    requires
        0 <= i <= k <= words.len(),
        forall|j: int| i <= j < k ==> present(#[trigger] words[j]),
        k == words.len() || !present(words[k]),
    ensures
        leading_present(words, i) == k - i,
    decreases k - i,
{
    if i < k {
        lemma_leading_present_characterized(words, i + 1, k);
    }
}

/// If every word from `s` through `p` is present, the run reaching forward
/// from `s` covers at least `p - s + 1` pages.
pub(crate) proof fn lemma_leading_present_at_least(words: Seq<u64>, s: int, p: int)
    requires
        0 <= s <= p < words.len(),
        forall|j: int| s <= j <= p ==> present(#[trigger] words[j]),
    ensures
        leading_present(words, s) >= p - s + 1,
    decreases p - s,
{
    assert(present(words[s]));
    if s < p {
        lemma_leading_present_at_least(words, s + 1, p);
    } else {
        lemma_leading_present_nonneg(words, s + 1);
    }
}

/// Fetch-point counts grow with the index.
pub(crate) proof fn lemma_runs_before_monotone(words: Seq<u64>, i: int, j: int)
    requires
        i <= j,
    ensures
        runs_before(words, i) <= runs_before(words, j),
    decreases j - i,
{
    if i < j {
        lemma_runs_before_monotone(words, i, j - 1);
    }
}

/// The start of the run containing a present page `p` lies at or before
/// `p`, is itself a fetch point, and every page from it through `p` is
/// present.
pub(crate) proof fn lemma_run_start_properties(words: Seq<u64>, p: int)
    requires
        0 <= p < words.len(),
        present(words[p]),
    ensures
        0 <= run_start(words, p) <= p,
        fetch_point(words, run_start(words, p)),
        forall|j: int| run_start(words, p) <= j <= p ==> present(#[trigger] words[j]),
    decreases p,
{
    if p > 0 && present(words[p - 1]) {
        lemma_run_start_properties(words, p - 1);
    }
}

/// One planned content read: a single seek and read of `pages` pages,
/// starting at page `page_index` of the segment.
#[derive(Clone, Copy, PartialEq, Eq, Structural, Debug)]
pub struct ReadRequest {
    pub page_index: usize,
    pub pages: usize,
}

/// Given a word slice whose first entry is present, returns the length of
/// the contiguous run of present entries at its start: the count of leading
/// present words, never zero, and the full slice length when every word is
/// present.
pub fn contiguous_mapped_length(pagemap: &[u64]) -> (r: usize)
    requires
        pagemap@.len() > 0,
        present(pagemap@[0]),
    ensures
        1 <= r <= pagemap@.len(),
        forall|i: int| 0 <= i < r ==> present(#[trigger] pagemap@[i]),
        r < pagemap@.len() ==> !present(pagemap@[r as int]),
        (forall|i: int| 0 <= i < pagemap@.len() ==> present(#[trigger] pagemap@[i])) ==> r == pagemap@.len(),
        r == leading_present(pagemap@, 0),
{
    let mut idx: usize = 0;
    while idx < pagemap.len()
        invariant
            pagemap@.len() > 0,
            present(pagemap@[0]),
            idx <= pagemap@.len(),
            forall|i: int| 0 <= i < idx ==> present(#[trigger] pagemap@[i]),
        decreases pagemap@.len() - idx,
    {
        if pagemap[idx] & PRESENT_MASK == 0 {
            proof {
                lemma_leading_present_characterized(pagemap@, 0, idx as int);
            }
            return idx;
        }
        idx += 1;
    }
    proof {
        lemma_leading_present_characterized(pagemap@, 0, pagemap@.len() as int);
    }
    idx
}

/// Plans the content reads for a segment: one request per maximal run of
/// present pages, in address order, each covering the whole run.
pub fn plan_content_reads(words: &[u64]) -> (plan: Vec<ReadRequest>)
    ensures
        plan@.len() == runs_before(words@, words@.len() as int),
        forall|j: int|
            #![trigger plan@[j]]
            0 <= j < plan@.len() ==> {
                &&& fetch_point(words@, plan@[j].page_index as int)
                &&& runs_before(words@, plan@[j].page_index as int) == j
                &&& plan@[j].pages == leading_present(words@, plan@[j].page_index as int)
            },
{
    let mut plan: Vec<ReadRequest> = Vec::new();
    let mut idx: usize = 0;
    while idx < words.len()
        invariant
            idx <= words@.len(),
            plan@.len() == runs_before(words@, idx as int),
            forall|j: int|
                #![trigger plan@[j]]
                0 <= j < plan@.len() ==> {
                    &&& fetch_point(words@, plan@[j].page_index as int)
                    &&& runs_before(words@, plan@[j].page_index as int) == j
                    &&& plan@[j].pages == leading_present(words@, plan@[j].page_index as int)
                },
        decreases words@.len() - idx,
    {
        let starts_run = (words[idx] & PRESENT_MASK != 0) && (idx == 0 || words[idx - 1]
            & PRESENT_MASK == 0);
        if starts_run {
            let run_len = contiguous_mapped_length(&words[idx..words.len()]);
            proof {
                let sub = words@.subrange(idx as int, words@.len() as int);
                assert forall|j: int| idx <= j < idx + run_len implies present(
                    #[trigger] words@[j],
                ) by {
                    assert(words@[j] == sub[j - idx]);
                }
                if idx + run_len < words@.len() {
                    assert(words@[idx + run_len] == sub[run_len as int]);
                }
                lemma_leading_present_characterized(words@, idx as int, idx + run_len);
            }
            plan.push(ReadRequest { page_index: idx, pages: run_len });
        }
        idx += 1;
    }
    plan
}

/// The buffers handed to the classifier match the read plan for `words`:
/// one buffer per fetch point, in plan order, each exactly as long as its
/// run.
pub open spec fn contents_match_plan(words: Seq<u64>, contents: Seq<Seq<u8>>) -> bool {
    &&& contents.len() == runs_before(words, words.len() as int)
    &&& forall|i: int|
        #[trigger] fetch_point(words, i) ==> contents[runs_before(words, i)].len()
            == leading_present(words, i) * (crate::PAGE_SIZE as int)
}

/// The bytes of present page `p`, sliced out of the buffer fetched for the
/// run that contains `p`.
pub open spec fn page_content(words: Seq<u64>, contents: Seq<Seq<u8>>, p: int) -> Seq<u8>
    recommends
        0 <= p < words.len(),
        present(words[p]),
        contents_match_plan(words, contents),
{
    let s = run_start(words, p);
    let off = (p - s) * (crate::PAGE_SIZE as int);
    contents[runs_before(words, s)].subrange(off, off + crate::PAGE_SIZE as int)
}

} // verus!
