use mem_analyze::segments::{
    filter_virtual_segments, parse_physical_segments, parse_range_line, parse_virtual_segments,
    segment_included, Region,
};
use mem_analyze::{PAGE_SIZE, SEGMENT_THRESHOLD};

#[test]
fn range_line_basic() {
    assert_eq!(
        parse_range_line(b"10-1f rw-p 00000000 00:00 0"),
        Some((0x10, 0xf))
    );
    assert_eq!(
        parse_range_line(b"559bd8c62000-559bd8c84000 rw-p"),
        Some((0x559bd8c62000, 0x22000))
    );
}

#[test]
fn range_line_leading_blanks() {
    assert_eq!(
        parse_range_line(b"  00001000-0009ffff : System RAM"),
        Some((0x1000, 0x9ffff - 0x1000))
    );
}

#[test]
fn range_line_upper_case_digits() {
    assert_eq!(parse_range_line(b"A0-FF"), Some((0xa0, 0x5f)));
}

#[test]
fn range_line_rejects_bad_shapes() {
    assert_eq!(parse_range_line(b""), None);
    assert_eq!(parse_range_line(b"not a line"), None);
    assert_eq!(parse_range_line(b"-5"), None);
    assert_eq!(parse_range_line(b"5-"), None);
    assert_eq!(parse_range_line(b"5"), None);
    assert_eq!(parse_range_line(b"5 - 6"), None);
}

#[test]
fn range_line_rejects_overflow() {
    // Seventeen hexadecimal digits overflow a 64-bit address.
    assert_eq!(parse_range_line(b"fffffffffffffffff-0"), None);
    assert_eq!(parse_range_line(b"0-10000000000000000"), None);
    assert_eq!(
        parse_range_line(b"ffffffffffffffff-ffffffffffffffff"),
        Some((usize::MAX, 0))
    );
}

#[test]
fn range_line_rejects_end_below_start() {
    assert_eq!(parse_range_line(b"ff-0f"), None);
    assert_eq!(parse_range_line(b"10-10"), Some((0x10, 0)));
}

#[test]
fn virtual_listing_skips_unparsable_lines() {
    let text = b"1000-3000 rw-p\nnonsense here\nffff880000000000-ffff880000001000 r--p\n";
    let regions = parse_virtual_segments(text);
    assert_eq!(regions.len(), 2);
    assert_eq!(regions[0].start_address, 0x1000);
    assert_eq!(regions[0].size, 0x2000);
    assert_eq!(regions[1].start_address, 0xffff880000000000);
    assert_eq!(regions[1].size, 0x1000);
}

#[test]
fn virtual_listing_without_trailing_newline() {
    let regions = parse_virtual_segments(b"1000-2000 rw-p\n2000-4000 r--p");
    assert_eq!(regions.len(), 2);
    assert_eq!(regions[1].size, 0x2000);
}

#[test]
fn virtual_listing_empty() {
    assert_eq!(parse_virtual_segments(b"").len(), 0);
    assert_eq!(parse_virtual_segments(b"\n\n").len(), 0);
}

#[test]
fn virtual_listing_strips_carriage_return() {
    let regions = parse_virtual_segments(b"1000-2000\r\n3000-4000\r\n");
    assert_eq!(regions.len(), 2);
    assert_eq!(regions[0].start_address, 0x1000);
}

#[test]
fn physical_listing_keeps_only_system_ram() {
    let text = b"00000000-00000fff : Reserved\n00001000-0009ffff : System RAM\n000a0000-000fffff : PCI Bus 0000:00\n00100000-3fffffff : System RAM\n";
    let regions = parse_physical_segments(text);
    assert_eq!(regions.len(), 2);
    assert_eq!(regions[0].start_address, 0x1000);
    assert_eq!(regions[0].size, 0x9ffff - 0x1000);
    assert_eq!(regions[1].start_address, 0x100000);
    assert_eq!(regions[1].size, 0x3fffffff - 0x100000);
}

#[test]
fn physical_listing_label_must_match_exactly() {
    let text = b"00001000-0009ffff : System RoM\n00100000-3fffffff : system ram\n";
    assert_eq!(parse_physical_segments(text).len(), 0);
}

#[test]
fn inclusion_filter_at_threshold() {
    // Exactly 1000 pages below the boundary is included.
    let included = Region {
        start_address: 0x1000,
        size: 1000 * PAGE_SIZE,
    };
    assert!(segment_included(&included));

    // One byte smaller is excluded.
    let small = Region {
        start_address: 0x1000,
        size: 1000 * PAGE_SIZE - 1,
    };
    assert!(!segment_included(&small));
}

#[test]
fn inclusion_filter_at_boundary() {
    // At or above the user/kernel boundary: excluded regardless of size.
    let kernel = Region {
        start_address: 0xffff800000000000,
        size: 100000 * PAGE_SIZE,
    };
    assert!(!segment_included(&kernel));
    let just_below = Region {
        start_address: 0xffff7fffffffffff,
        size: SEGMENT_THRESHOLD,
    };
    assert!(segment_included(&just_below));
}

#[test]
fn filter_keeps_matching_regions_in_order() {
    let regions = vec![
        Region { start_address: 0x1000, size: SEGMENT_THRESHOLD },
        Region { start_address: 0x2000, size: 4096 },
        Region { start_address: 0xffff800000000000, size: SEGMENT_THRESHOLD },
        Region { start_address: 0x3000, size: SEGMENT_THRESHOLD + 1 },
    ];
    let kept = filter_virtual_segments(regions);
    assert_eq!(kept.len(), 2);
    assert_eq!(kept[0].start_address, 0x1000);
    assert_eq!(kept[1].start_address, 0x3000);
}
