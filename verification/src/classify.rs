//! The page classifier: merging decoded words, the idle bitmap, and page
//! contents into persisted flag words.
//!
//! Virtual mode walks a segment's translation words: unmapped and swapped
//! pages pass through unchanged; a resident page has its frame looked up in
//! the idle bitmap, its contents tested for all-zero, and its word converted
//! to the persisted form. Physical mode walks a region's frame-flag words:
//! every frame is resident by construction, its true frame number is the
//! region's first frame plus its position, and content inspection is
//! optional.

use vstd::prelude::*;
use crate::idle::{is_active, is_active_spec};
use crate::reader::{
    contents_match_plan, fetch_point, leading_present, lemma_leading_present_at_least,
    lemma_leading_present_nonneg, lemma_run_start_properties, lemma_runs_before_monotone,
    page_content, run_start, runs_before,
};
use crate::words::{
    frame_number, present, resident, spec_persist_frame, spec_persist_resident, swap_flagged,
    TranslationWord, PRESENT_MASK,
};

verus! {

/// A page is a zero page exactly when every one of its bytes is zero.
pub open spec fn is_zero_page_spec(content: Seq<u8>) -> bool {
    forall|i: int| 0 <= i < content.len() ==> content[i] == 0
}

/// Tests whether every byte of a page's contents is zero.
pub fn is_zero_page(content: &[u8]) -> (r: bool)
    ensures
        r == is_zero_page_spec(content@),
{
    let mut i: usize = 0;
    while i < content.len()
        invariant
            i <= content@.len(),
            forall|j: int| 0 <= j < i ==> #[trigger] content@[j] == 0,
        decreases content@.len() - i,
    {
        if content[i] != 0 {
            return false;
        }
        i += 1;
    }
    true
}

/// The sequence of byte buffers a vector of fetched buffers stands for.
pub open spec fn buffers_view(contents: Seq<Vec<u8>>) -> Seq<Seq<u8>> {
    contents.map_values(|b: Vec<u8>| b@)
}

/// What classification makes of page `p` of a virtual segment: unmapped and
/// swapped words pass through unchanged; a resident word is converted to its
/// persisted form from the idle bitmap and the page's fetched contents.
pub open spec fn spec_classify_virtual(
    words: Seq<u64>,
    contents: Seq<Seq<u8>>,
    idlemap: Seq<u8>,
    p: int,
) -> u64 {
    let w = words[p];
    if !present(w) {
        w
    } else if swap_flagged(w) {
        w
    } else {
        spec_persist_resident(
            w,
            is_active_spec(frame_number(w), idlemap),
            is_zero_page_spec(page_content(words, contents, p)),
        )
    }
}

/// Classifies one virtual segment. `words` are the segment's decoded
/// translation words, `idlemap` the loaded idle bitmap, and `contents` the
/// buffers fetched by executing this segment's read plan, one per run of
/// present pages.
pub fn classify_virtual_segment(words: &[u64], idlemap: &[u8], contents: &Vec<Vec<u8>>) -> (flags:
    Vec<u64>)
    requires
        contents_match_plan(words@, buffers_view(contents@)),
        forall|p: int|
            0 <= p < words@.len() && resident(#[trigger] words@[p]) ==> frame_number(words@[p]) / 8
                < idlemap@.len(),
    ensures
        flags@.len() == words@.len(),
        forall|p: int|
            0 <= p < words@.len() ==> #[trigger] flags@[p] == spec_classify_virtual(
                words@,
                buffers_view(contents@),
                idlemap@,
                p,
            ),
{
    let ghost bufs = buffers_view(contents@);
    let nbufs: usize = contents.len();
    let mut flags: Vec<u64> = Vec::new();
    let mut run_s: usize = 0;
    let mut buf_i: usize = 0;
    let mut seen: usize = 0;
    let mut idx: usize = 0;
    while idx < words.len()
        invariant
            bufs == buffers_view(contents@),
            nbufs == bufs.len(),
            contents_match_plan(words@, bufs),
            forall|p: int|
                0 <= p < words@.len() && resident(#[trigger] words@[p]) ==> frame_number(
                    words@[p],
                ) / 8 < idlemap@.len(),
            idx <= words@.len(),
            flags@.len() == idx,
            seen == runs_before(words@, idx as int),
            idx > 0 && present(words@[idx - 1]) ==> {
                &&& run_s < idx
                &&& run_s as int == run_start(words@, idx - 1)
                &&& buf_i as int == runs_before(words@, run_s as int)
            },
            forall|p: int|
                0 <= p < idx ==> #[trigger] flags@[p] == spec_classify_virtual(
                    words@,
                    bufs,
                    idlemap@,
                    p,
                ),
        decreases words@.len() - idx,
    {
        let w = words[idx];
        if w & PRESENT_MASK != 0 {
            if idx == 0 || words[idx - 1] & PRESENT_MASK == 0 {
                run_s = idx;
                buf_i = seen;
                proof {
                    assert(fetch_point(words@, idx as int));
                    assert(runs_before(words@, idx as int + 1) == runs_before(words@, idx as int)
                        + 1);
                    lemma_runs_before_monotone(words@, idx as int + 1, words@.len() as int);
                    assert(seen + 1 <= nbufs);
                }
                seen = seen + 1;
            }
            proof {
                assert(run_start(words@, idx as int) == run_s as int);
            }
        }
        let tw = TranslationWord { raw: w };
        if !tw.present() {
            flags.push(w);
        } else if tw.swapped() {
            flags.push(w);
        } else {
            proof {
                lemma_run_start_properties(words@, idx as int);
                assert(fetch_point(words@, run_s as int));
                assert(runs_before(words@, run_s as int + 1) == runs_before(words@, run_s as int)
                    + 1);
                lemma_runs_before_monotone(words@, run_s as int + 1, words@.len() as int);
                assert(bufs[buf_i as int].len() == leading_present(words@, run_s as int) * (
                crate::PAGE_SIZE as int));
                if (run_s as int) < idx as int {
                    lemma_leading_present_at_least(words@, run_s as int, idx as int);
                } else {
                    lemma_leading_present_nonneg(words@, run_s as int + 1);
                    assert(leading_present(words@, run_s as int) >= 1);
                }
                assert(buf_i as int == runs_before(words@, run_s as int));
                assert(buf_i < nbufs);
            }
            let frame = tw.frame_number();
            let active = is_active(frame, idlemap);
            let buf: &Vec<u8> = &contents[buf_i];
            let buf_len: usize = buf.len();
            proof {
                assert(bufs[buf_i as int] == buf@);
                assert(buf_len as int == leading_present(words@, run_s as int) * (
                crate::PAGE_SIZE as int));
                assert((idx as int - run_s as int) * (crate::PAGE_SIZE as int) + (
                crate::PAGE_SIZE as int) <= buf_len as int);
            }
            let off = (idx - run_s) * crate::PAGE_SIZE;
            let page: &[u8] = &buf.as_slice()[off..off + crate::PAGE_SIZE];
            let zero = is_zero_page(page);
            proof {
                assert(page@ == page_content(words@, bufs, idx as int));
            }
            let pw = tw.persist_resident(active, zero);
            flags.push(pw.raw);
        }
        idx += 1;
    }
    flags
}

/// What classification makes of a physical frame: the source word with its
/// stale active flag cleared and the freshly computed active and zero flags
/// merged in; without fetched contents the zero flag is never asserted.
pub open spec fn spec_classify_physical(
    w: u64,
    frame: u64,
    idlemap: Seq<u8>,
    content: Option<Seq<u8>>,
) -> u64 {
    let zero = match content {
        Option::Some(c) => is_zero_page_spec(c),
        Option::None => false,
    };
    spec_persist_frame(w, is_active_spec(frame, idlemap), zero)
}

/// Classifies one physical region. `flag_words` are the region's decoded
/// frame-flag words, `start_address` its first byte address (frame-aligned),
/// and `contents`, when inspection is enabled, one fetched page per frame.
/// Frame `i` of the region has true frame number
/// `start_address / PAGE_SIZE + i`, which indexes the idle bitmap.
pub fn classify_physical_segment(
    flag_words: &[u64],
    start_address: usize,
    idlemap: &[u8],
    contents: Option<&Vec<Vec<u8>>>,
) -> (out: Vec<u64>)
    requires
        start_address as int % (crate::PAGE_SIZE as int) == 0,
        start_address as int / (crate::PAGE_SIZE as int) + flag_words@.len() <= 8 * idlemap@.len(),
        start_address as int / (crate::PAGE_SIZE as int) + flag_words@.len() <= u64::MAX,
        match contents {
            Option::Some(c) => c@.len() == flag_words@.len(),
            Option::None => true,
        },
    ensures
        out@.len() == flag_words@.len(),
        forall|i: int|
            0 <= i < flag_words@.len() ==> #[trigger] out@[i] == spec_classify_physical(
                flag_words@[i],
                (start_address as int / (crate::PAGE_SIZE as int) + i) as u64,
                idlemap@,
                match contents {
                    Option::Some(c) => Option::Some(buffers_view(c@)[i]),
                    Option::None => Option::None,
                },
            ),
{
    let base: u64 = (start_address / crate::PAGE_SIZE) as u64;
    let mut out: Vec<u64> = Vec::new();
    let mut idx: usize = 0;
    while idx < flag_words.len()
        invariant
            base == start_address as int / (crate::PAGE_SIZE as int),
            start_address as int / (crate::PAGE_SIZE as int) + flag_words@.len() <= 8
                * idlemap@.len(),
            start_address as int / (crate::PAGE_SIZE as int) + flag_words@.len() <= u64::MAX,
            match contents {
                Option::Some(c) => c@.len() == flag_words@.len(),
                Option::None => true,
            },
            idx <= flag_words@.len(),
            out@.len() == idx,
            forall|i: int|
                0 <= i < idx ==> #[trigger] out@[i] == spec_classify_physical(
                    flag_words@[i],
                    (start_address as int / (crate::PAGE_SIZE as int) + i) as u64,
                    idlemap@,
                    match contents {
                        Option::Some(c) => Option::Some(buffers_view(c@)[i]),
                        Option::None => Option::None,
                    },
                ),
        decreases flag_words@.len() - idx,
    {
        let frame: u64 = base + idx as u64;
        let active = is_active(frame, idlemap);
        let zero = match contents {
            Option::Some(c) => is_zero_page(c[idx].as_slice()),
            Option::None => false,
        };
        let tw = TranslationWord { raw: flag_words[idx] };
        let pw = tw.persist_frame(active, zero);
        out.push(pw.raw);
        idx += 1;
    }
    out
}

} // verus!
