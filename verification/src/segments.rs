//! The segment locator: parsing the kernel's textual region listings.
//!
//! Virtual mode parses a per-process listing with one `start-end`
//! hexadecimal pair per line; a line that does not parse is skipped, and the
//! caller keeps only user-space regions of at least the size threshold.
//! Physical mode parses the host's resource listing, keeping only extents
//! labeled as general-purpose system RAM. Reading the listing files is the
//! unverified shell's job; the grammar lives here.

use vstd::prelude::*;
use crate::{SEGMENT_THRESHOLD, USERSPACE_END};

verus! {

/// One raw memory region as a kernel listing describes it: a start address
/// and a byte size.
#[derive(Clone, Copy, PartialEq, Eq, Structural, Debug)]
pub struct Region {
    pub start_address: usize,
    pub size: usize,
}

/// Blank bytes a listing line may start with.
pub open spec fn is_space(b: u8) -> bool {
    b == 32 || b == 9
}

/// ASCII hexadecimal digits, either case.
pub open spec fn is_hex_digit(b: u8) -> bool {
    (48 <= b <= 57) || (97 <= b <= 102) || (65 <= b <= 70)
}

/// The numeric value of one hexadecimal digit.
pub open spec fn hex_digit_value(b: u8) -> int {
    if 48 <= b <= 57 {
        b - 48
    } else if 97 <= b <= 102 {
        b - 87
    } else if 65 <= b <= 70 {
        b - 55
    } else {
        0
    }
}

/// How many blank bytes run from index `i` on.
pub open spec fn space_span(s: Seq<u8>, i: int) -> int
    decreases s.len() - i,
{
    if i < 0 || i >= s.len() {
        0
    } else if is_space(s[i]) {
        1 + space_span(s, i + 1)
    } else {
        0
    }
}

/// How many hexadecimal digits run from index `i` on.
pub open spec fn hex_span(s: Seq<u8>, i: int) -> int
    decreases s.len() - i,
{
    if i < 0 || i >= s.len() {
        0
    } else if is_hex_digit(s[i]) {
        1 + hex_span(s, i + 1)
    } else {
        0
    }
}

/// The value of the hexadecimal digits `s[i .. k]`, most significant first.
pub open spec fn hex_value(s: Seq<u8>, i: int, k: int) -> int
    decreases k - i,
{
    if k <= i {
        0
    } else {
        hex_value(s, i, k - 1) * 16 + hex_digit_value(s[k - 1])
    }
}

/// A run of blanks from `i` to `k` with a non-blank (or the end) at `k`
/// pins `space_span` down to exactly `k - i`.
proof fn lemma_space_span_characterized(s: Seq<u8>, i: int, k: int)
    requires
        0 <= i <= k <= s.len(),
        forall|j: int| i <= j < k ==> is_space(#[trigger] s[j]),
        k == s.len() || !is_space(s[k]),
    ensures
        space_span(s, i) == k - i,
    decreases k - i,
{
    if i < k {
        lemma_space_span_characterized(s, i + 1, k);
    }
}

/// A run of digits from `i` to `k` with a non-digit (or the end) at `k`
/// pins `hex_span` down to exactly `k - i`.
proof fn lemma_hex_span_characterized(s: Seq<u8>, i: int, k: int)
    requires
        0 <= i <= k <= s.len(),
        forall|j: int| i <= j < k ==> is_hex_digit(#[trigger] s[j]),
        k == s.len() || !is_hex_digit(s[k]),
    ensures
        hex_span(s, i) == k - i,
    decreases k - i,
{
    if i < k {
        lemma_hex_span_characterized(s, i + 1, k);
    }
}

/// A hexadecimal value is never negative.
proof fn lemma_hex_value_nonneg(s: Seq<u8>, i: int, k: int)
    ensures
        hex_value(s, i, k) >= 0,
    decreases k - i,
{
    if k > i {
        lemma_hex_value_nonneg(s, i, k - 1);
    }
}

/// Taking more digits never shrinks a hexadecimal value.
proof fn lemma_hex_value_monotone(s: Seq<u8>, i: int, k1: int, k2: int)
    requires
        k1 <= k2,
    ensures
        hex_value(s, i, k1) <= hex_value(s, i, k2),
    decreases k2 - k1,
{
    if k1 < k2 {
        lemma_hex_value_monotone(s, i, k1, k2 - 1);
        lemma_hex_value_nonneg(s, i, k2 - 1);
    }
}

/// What one listing line yields: after any leading blanks, a run of
/// hexadecimal digits, a dash, and a second run of digits, giving the
/// region `[start, end)` as its start and size. Anything after the second
/// run is ignored. A line without that shape, a value too large for an
/// address, or an end below its start does not parse.
pub open spec fn spec_parse_range_line(line: Seq<u8>) -> Option<(usize, usize)> {
    let i0 = space_span(line, 0);
    let k1 = i0 + hex_span(line, i0);
    let i2 = k1 + 1;
    let k2 = i2 + hex_span(line, i2);
    if k1 == i0 {
        Option::None
    } else if !(k1 < line.len() && line[k1] == 45) {
        Option::None
    } else if k2 == i2 {
        Option::None
    } else {
        let a = hex_value(line, i0, k1);
        let b = hex_value(line, i2, k2);
        if a > usize::MAX || b > usize::MAX || b < a {
            Option::None
        } else {
            Option::Some((a as usize, (b - a) as usize))
        }
    }
}

/// The numeric value of one hexadecimal digit byte.
fn hex_digit(b: u8) -> (r: u8)
    requires
        is_hex_digit(b),
    ensures
        r as int == hex_digit_value(b),
{
    if b <= 57 {
        b - 48
    } else if b >= 97 {
        b - 87
    } else {
        b - 55
    }
}

/// Scans past leading blanks, returning the first non-blank index.
fn scan_spaces(line: &[u8], from: usize) -> (r: usize)
    requires
        from <= line@.len(),
    ensures
        from <= r <= line@.len(),
        r as int == from + space_span(line@, from as int),
{
    let mut j: usize = from;
    while j < line.len() && (line[j] == 32 || line[j] == 9)
        invariant
            from <= j <= line@.len(),
            forall|t: int| from <= t < j ==> is_space(#[trigger] line@[t]),
        decreases line@.len() - j,
    {
        j += 1;
    }
    proof {
        lemma_space_span_characterized(line@, from as int, j as int);
    }
    j
}

/// Scans past hexadecimal digits, returning the first non-digit index.
fn scan_hex_digits(line: &[u8], from: usize) -> (r: usize)
    requires
        from <= line@.len(),
    ensures
        from <= r <= line@.len(),
        r as int == from + hex_span(line@, from as int),
        forall|t: int| from <= t < r ==> is_hex_digit(#[trigger] line@[t]),
{
    let mut j: usize = from;
    while j < line.len() && ((48 <= line[j] && line[j] <= 57) || (97 <= line[j] && line[j] <= 102)
        || (65 <= line[j] && line[j] <= 70))
        invariant
            from <= j <= line@.len(),
            forall|t: int| from <= t < j ==> is_hex_digit(#[trigger] line@[t]),
        decreases line@.len() - j,
    {
        j += 1;
    }
    proof {
        lemma_hex_span_characterized(line@, from as int, j as int);
    }
    j
}

/// Reads the value of the digits `line[from .. to]`, or nothing when the
/// value does not fit an address.
fn parse_hex_value(line: &[u8], from: usize, to: usize) -> (r: Option<usize>)
    requires
        from <= to <= line@.len(),
        forall|j: int| from <= j < to ==> is_hex_digit(#[trigger] line@[j]),
    ensures
        match r {
            Option::Some(v) => v as int == hex_value(line@, from as int, to as int),
            Option::None => hex_value(line@, from as int, to as int) > usize::MAX,
        },
{
    let mut acc: usize = 0;
    let mut j: usize = from;
    while j < to
        invariant
            from <= j <= to <= line@.len(),
            forall|t: int| from <= t < to ==> is_hex_digit(#[trigger] line@[t]),
            acc as int == hex_value(line@, from as int, j as int),
        decreases to - j,
    {
        let d = hex_digit(line[j]);
        if acc > (usize::MAX - d as usize) / 16 {
            proof {
                assert(hex_value(line@, from as int, j as int + 1) == acc * 16 + d);
                assert(acc * 16 + d > usize::MAX);
                lemma_hex_value_monotone(line@, from as int, j as int + 1, to as int);
            }
            return Option::None;
        }
        acc = acc * 16 + d as usize;
        j += 1;
    }
    Option::Some(acc)
}

/// Parses one listing line as a `start-end` hexadecimal pair, returning the
/// region's start address and size.
pub fn parse_range_line(line: &[u8]) -> (r: Option<(usize, usize)>)
    ensures
        r == spec_parse_range_line(line@),
{
    let i0 = scan_spaces(line, 0);
    let k1 = scan_hex_digits(line, i0);
    if k1 == i0 {
        return Option::None;
    }
    if !(k1 < line.len() && line[k1] == 45) {
        return Option::None;
    }
    let i2 = k1 + 1;
    let k2 = scan_hex_digits(line, i2);
    if k2 == i2 {
        return Option::None;
    }
    let a = match parse_hex_value(line, i0, k1) {
        Option::Some(v) => v,
        Option::None => {
            return Option::None;
        },
    };
    let b = match parse_hex_value(line, i2, k2) {
        Option::Some(v) => v,
        Option::None => {
            return Option::None;
        },
    };
    if b < a {
        return Option::None;
    }
    Option::Some((a, b - a))
}

/// The bytes of the label that marks a general-purpose RAM extent.
pub open spec fn system_ram_label() -> Seq<u8> {
    seq![83u8, 121u8, 115u8, 116u8, 101u8, 109u8, 32u8, 82u8, 65u8, 77u8]
}

/// Whether a line mentions the system RAM label anywhere.
pub open spec fn line_has_system_ram(line: Seq<u8>) -> bool {
    exists|j: int|
        0 <= j && j + 10 <= line.len() && #[trigger] line.subrange(j, j + 10)
            == system_ram_label()
}

/// Tests whether a line mentions the system RAM label.
fn line_contains_system_ram(line: &[u8]) -> (r: bool)
    ensures
        r == line_has_system_ram(line@),
{
    if line.len() < 10 {
        return false;
    }
    let mut j: usize = 0;
    while j <= line.len() - 10
        invariant
            10 <= line@.len(),
            j <= line@.len() - 10 + 1,
            forall|t: int|
                0 <= t < j ==> #[trigger] line@.subrange(t, t + 10) != system_ram_label(),
        decreases line@.len() - j,
    {
        let hit = line[j] == 83 && line[j + 1] == 121 && line[j + 2] == 115 && line[j + 3] == 116
            && line[j + 4] == 101 && line[j + 5] == 109 && line[j + 6] == 32 && line[j + 7] == 82
            && line[j + 8] == 65 && line[j + 9] == 77;
        if hit {
            proof {
                assert(line@.subrange(j as int, j as int + 10) =~= system_ram_label());
            }
            return true;
        }
        proof {
            assert(line@.subrange(j as int, j as int + 10) != system_ram_label()) by {
                let sub = line@.subrange(j as int, j as int + 10);
                if sub == system_ram_label() {
                    assert(sub[0] == 83 && sub[1] == 121 && sub[2] == 115 && sub[3] == 116
                        && sub[4] == 101 && sub[5] == 109 && sub[6] == 32 && sub[7] == 82 && sub[8]
                        == 65 && sub[9] == 77);
                }
            }
        }
        j += 1;
    }
    false
}

/// The distance from index `i` to the next newline byte, or to the end.
pub open spec fn line_length(s: Seq<u8>, i: int) -> int
    decreases s.len() - i,
{
    if i < 0 || i >= s.len() {
        0
    } else if s[i] == 10 {
        0
    } else {
        1 + line_length(s, i + 1)
    }
}

/// A line length never runs past the end of the data.
proof fn lemma_line_length_bounds(s: Seq<u8>, i: int)
    requires
        0 <= i <= s.len(),
    ensures
        0 <= line_length(s, i) <= s.len() - i,
    decreases s.len() - i,
{
    if i < s.len() && s[i] != 10 {
        lemma_line_length_bounds(s, i + 1);
    }
}

/// A stretch without newlines from `i` to `k`, with a newline (or the end)
/// at `k`, pins `line_length` down to exactly `k - i`.
proof fn lemma_line_length_characterized(s: Seq<u8>, i: int, k: int)
    requires
        0 <= i <= k <= s.len(),
        forall|j: int| i <= j < k ==> #[trigger] s[j] != 10,
        k == s.len() || s[k] == 10,
    ensures
        line_length(s, i) == k - i,
    decreases k - i,
{
    if i < k {
        lemma_line_length_characterized(s, i + 1, k);
    }
}

/// The content of the line starting at index `i`: the bytes up to the next
/// newline, with one trailing carriage return stripped.
pub open spec fn line_at(s: Seq<u8>, i: int) -> Seq<u8> {
    let raw = s.subrange(i, i + line_length(s, i));
    if raw.len() > 0 && raw.last() == 13 {
        raw.drop_last()
    } else {
        raw
    }
}

/// Where the next line starts: one past this line's newline, or the end of
/// the data when this line is the last.
pub open spec fn next_line_index(s: Seq<u8>, i: int) -> int {
    if i + line_length(s, i) + 1 <= s.len() {
        i + line_length(s, i) + 1
    } else {
        s.len() as int
    }
}

/// The regions the virtual listing spells out from index `i` on: one per
/// line that parses as a range; lines that do not parse are skipped.
pub open spec fn spec_parse_virtual_from(s: Seq<u8>, i: int) -> Seq<Region>
    decreases s.len() - i,
    via spec_parse_virtual_from_decreases
{
    if i < 0 || i >= s.len() {
        Seq::empty()
    } else {
        let rest = spec_parse_virtual_from(s, next_line_index(s, i));
        match spec_parse_range_line(line_at(s, i)) {
            Option::Some(pair) => seq![Region { start_address: pair.0, size: pair.1 }] + rest,
            Option::None => rest,
        }
    }
}

#[via_fn]
proof fn spec_parse_virtual_from_decreases(s: Seq<u8>, i: int) {
    if 0 <= i < s.len() {
        lemma_line_length_bounds(s, i);
    }
}

/// The regions the physical listing spells out from index `i` on: one per
/// line that mentions the system RAM label and parses as a range.
pub open spec fn spec_parse_physical_from(s: Seq<u8>, i: int) -> Seq<Region>
    decreases s.len() - i,
    via spec_parse_physical_from_decreases
{
    if i < 0 || i >= s.len() {
        Seq::empty()
    } else {
        let rest = spec_parse_physical_from(s, next_line_index(s, i));
        if line_has_system_ram(line_at(s, i)) {
            match spec_parse_range_line(line_at(s, i)) {
                Option::Some(pair) => seq![Region { start_address: pair.0, size: pair.1 }] + rest,
                Option::None => rest,
            }
        } else {
            rest
        }
    }
}

#[via_fn]
proof fn spec_parse_physical_from_decreases(s: Seq<u8>, i: int) {
    if 0 <= i < s.len() {
        lemma_line_length_bounds(s, i);
    }
}

/// Finds the end of the line starting at `i`: the index of the next
/// newline, or the end of the data.
fn scan_line(data: &[u8], from: usize) -> (r: usize)
    requires
        from <= data@.len(),
    ensures
        from <= r <= data@.len(),
        r as int == from + line_length(data@, from as int),
{
    let mut j: usize = from;
    while j < data.len() && data[j] != 10
        invariant
            from <= j <= data@.len(),
            forall|t: int| from <= t < j ==> #[trigger] data@[t] != 10,
        decreases data@.len() - j,
    {
        j += 1;
    }
    proof {
        lemma_line_length_characterized(data@, from as int, j as int);
    }
    j
}

/// Parses the whole per-process region listing: one region per line that
/// parses as a `start-end` pair, in listing order.
pub fn parse_virtual_segments(data: &[u8]) -> (regions: Vec<Region>)
    ensures
        regions@ == spec_parse_virtual_from(data@, 0),
{
    let mut regions: Vec<Region> = Vec::new();
    let mut i: usize = 0;
    while i < data.len()
        invariant
            i <= data@.len(),
            spec_parse_virtual_from(data@, 0) == regions@ + spec_parse_virtual_from(
                data@,
                i as int,
            ),
        decreases data@.len() - i,
    {
        let ghost old_regions = regions@;
        let end = scan_line(data, i);
        let line_end = if end > i && data[end - 1] == 13 {
            end - 1
        } else {
            end
        };
        let line: &[u8] = &data[i..line_end];
        proof {
            assert(line@ =~= line_at(data@, i as int));
        }
        match parse_range_line(line) {
            Option::Some(pair) => {
                regions.push(Region { start_address: pair.0, size: pair.1 });
                proof {
                    assert(regions@ =~= old_regions + seq![
                        Region { start_address: pair.0, size: pair.1 },
                    ]);
                    assert(old_regions + seq![Region { start_address: pair.0, size: pair.1 }]
                        + spec_parse_virtual_from(data@, next_line_index(data@, i as int))
                        =~= old_regions + (seq![Region { start_address: pair.0, size: pair.1 }]
                        + spec_parse_virtual_from(data@, next_line_index(data@, i as int))));
                }
            },
            Option::None => {},
        }
        if end < data.len() {
            i = end + 1;
        } else {
            i = data.len();
        }
    }
    proof {
        assert(spec_parse_virtual_from(data@, i as int) =~= Seq::<Region>::empty());
        assert(regions@ + Seq::<Region>::empty() =~= regions@);
    }
    regions
}

/// Parses the whole host resource listing: one region per line labeled as
/// system RAM that parses as a `start-end` pair, in listing order.
pub fn parse_physical_segments(data: &[u8]) -> (regions: Vec<Region>)
    ensures
        regions@ == spec_parse_physical_from(data@, 0),
{
    let mut regions: Vec<Region> = Vec::new();
    let mut i: usize = 0;
    while i < data.len()
        invariant
            i <= data@.len(),
            spec_parse_physical_from(data@, 0) == regions@ + spec_parse_physical_from(
                data@,
                i as int,
            ),
        decreases data@.len() - i,
    {
        let ghost old_regions = regions@;
        let end = scan_line(data, i);
        let line_end = if end > i && data[end - 1] == 13 {
            end - 1
        } else {
            end
        };
        let line: &[u8] = &data[i..line_end];
        proof {
            assert(line@ =~= line_at(data@, i as int));
        }
        if line_contains_system_ram(line) {
            match parse_range_line(line) {
                Option::Some(pair) => {
                    regions.push(Region { start_address: pair.0, size: pair.1 });
                    proof {
                        assert(regions@ =~= old_regions + seq![
                            Region { start_address: pair.0, size: pair.1 },
                        ]);
                        assert(old_regions + seq![Region { start_address: pair.0, size: pair.1 }]
                            + spec_parse_physical_from(data@, next_line_index(data@, i as int))
                            =~= old_regions + (seq![Region { start_address: pair.0, size: pair.1 }]
                            + spec_parse_physical_from(
                            data@,
                            i + line_length(data@, i as int) + 1,
                        )));
                    }
                },
                Option::None => {},
            }
        }
        if end < data.len() {
            i = end + 1;
        } else {
            i = data.len();
        }
    }
    proof {
        assert(spec_parse_physical_from(data@, i as int) =~= Seq::<Region>::empty());
        assert(regions@ + Seq::<Region>::empty() =~= regions@);
    }
    regions
}

/// A virtual region is sampled only when it lies in user space and holds at
/// least the threshold's worth of pages.
pub open spec fn spec_segment_included(region: Region) -> bool {
    (region.start_address as int) < USERSPACE_END && region.size >= SEGMENT_THRESHOLD
}

/// Tests the virtual-mode inclusion filter for one region.
pub fn segment_included(region: &Region) -> (r: bool)
    ensures
        r == spec_segment_included(*region),
{
    ((region.start_address as u64) < USERSPACE_END) && (region.size >= SEGMENT_THRESHOLD)
}

/// Keeps exactly the regions the virtual-mode filter includes, in order.
pub fn filter_virtual_segments(regions: Vec<Region>) -> (kept: Vec<Region>)
    ensures
        kept@ == regions@.filter(|region: Region| spec_segment_included(region)),
{
    let mut kept: Vec<Region> = Vec::new();
    let mut i: usize = 0;
    while i < regions.len()
        invariant
            i <= regions@.len(),
            kept@ == regions@.take(i as int).filter(
                |region: Region| spec_segment_included(region),
            ),
        decreases regions@.len() - i,
    {
        let region = regions[i];
        proof {
            reveal(Seq::filter);
            assert(regions@.take(i as int + 1).drop_last() =~= regions@.take(i as int));
            assert(regions@.take(i as int + 1).last() == regions@[i as int]);
        }
        if segment_included(&region) {
            kept.push(region);
        }
        i += 1;
    }
    proof {
        assert(regions@.take(regions@.len() as int) =~= regions@);
    }
    kept
}

} // verus!
