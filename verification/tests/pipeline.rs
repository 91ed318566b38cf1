use mem_analyze::classify::{classify_physical_segment, classify_virtual_segment, is_zero_page};
use mem_analyze::decode::{decode_table_words, segment_table_span};
use mem_analyze::persist::{encode_page_flags, process_to_page_summary};
use mem_analyze::reader::{contiguous_mapped_length, plan_content_reads};
use mem_analyze::statistics::page_analytics;
use mem_analyze::words::{ACTIVE_PAGE_MASK, PFN_MASK, ZERO_PAGE_MASK};
use mem_analyze::{ProcessMemory, Segment, PAGE_SIZE};

const PRESENT: u64 = 1u64 << 63;
const SWAP: u64 = 1u64 << 62;

#[test]
fn run_length_counts_leading_present() {
    let words = vec![PRESENT, PRESENT | 7, 0, PRESENT];
    assert_eq!(contiguous_mapped_length(&words), 2);
    let all = vec![PRESENT; 5];
    assert_eq!(contiguous_mapped_length(&all), 5);
    let one = vec![PRESENT | SWAP];
    assert_eq!(contiguous_mapped_length(&one), 1);
}

#[test]
fn read_plan_one_request_per_run() {
    let words = vec![PRESENT, PRESENT, 0, PRESENT];
    let plan = plan_content_reads(&words);
    assert_eq!(plan.len(), 2);
    assert_eq!((plan[0].page_index, plan[0].pages), (0, 2));
    assert_eq!((plan[1].page_index, plan[1].pages), (3, 1));
}

#[test]
fn read_plan_swapped_pages_extend_a_run() {
    // A swapped page is still present, so it does not break the run.
    let words = vec![PRESENT, PRESENT | SWAP, PRESENT, 0, 0, PRESENT];
    let plan = plan_content_reads(&words);
    assert_eq!(plan.len(), 2);
    assert_eq!((plan[0].page_index, plan[0].pages), (0, 3));
    assert_eq!((plan[1].page_index, plan[1].pages), (5, 1));
}

#[test]
fn read_plan_empty_and_unmapped() {
    assert_eq!(plan_content_reads(&[]).len(), 0);
    assert_eq!(plan_content_reads(&[0, 0, 0]).len(), 0);
    let tail = plan_content_reads(&[0, PRESENT, PRESENT]);
    assert_eq!(tail.len(), 1);
    assert_eq!((tail[0].page_index, tail[0].pages), (1, 2));
}

#[test]
fn zero_page_all_zero_bytes() {
    let page = vec![0u8; PAGE_SIZE];
    assert!(is_zero_page(&page));
}

#[test]
fn zero_page_flips_on_any_single_byte() {
    for &position in [0usize, 1, 2047, 4094, 4095].iter() {
        let mut page = vec![0u8; PAGE_SIZE];
        page[position] = 0x5a;
        assert!(!is_zero_page(&page));
    }
}

#[test]
fn classify_virtual_passes_through_and_converts() {
    // Page 0 unmapped, page 1 resident at frame 2, page 2 swapped.
    let resident = PRESENT | 2;
    let swapped = PRESENT | SWAP | 0x99;
    let words = vec![5u64, resident, swapped];
    // Frame 2's idle bit is set: the frame stayed idle.
    let idlemap = vec![0b0000_0100u8];
    // One run of two present pages starting at page 1; its buffer holds a
    // zero page followed by a non-zero page.
    let plan = plan_content_reads(&words);
    assert_eq!(plan.len(), 1);
    assert_eq!((plan[0].page_index, plan[0].pages), (1, 2));
    let contents = vec![vec![0u8; 2 * PAGE_SIZE]];

    let flags = classify_virtual_segment(&words, &idlemap, &contents);
    assert_eq!(flags.len(), 3);
    assert_eq!(flags[0], 5);
    assert_eq!(flags[1], PRESENT | ZERO_PAGE_MASK);
    assert_eq!(flags[2], swapped);
}

#[test]
fn classify_virtual_active_page_with_content() {
    let resident = PRESENT | (PFN_MASK & 0xabcd);
    let words = vec![resident];
    // Frame 0xabcd: byte 0x1579, bit 5, cleared: accessed in the window.
    let idlemap = vec![0u8; 0x1580];
    let mut content = vec![0u8; PAGE_SIZE];
    content[123] = 1;
    let contents = vec![content];

    let flags = classify_virtual_segment(&words, &idlemap, &contents);
    // The frame number is cleared, the active flag set, the zero flag not.
    assert_eq!(flags[0], PRESENT | ACTIVE_PAGE_MASK);
}

#[test]
fn classify_virtual_two_runs_use_their_own_buffers() {
    // Two present runs split by an unmapped page; each run has its own
    // fetched buffer, sliced per page.
    let words = vec![PRESENT | 1, 0u64, PRESENT | 2, PRESENT | 3];
    let idlemap = vec![0u8]; // frames 1..3 accessed in the window
    let mut second = vec![0u8; 2 * PAGE_SIZE];
    second[PAGE_SIZE] = 7; // page at index 3 is not a zero page
    let contents = vec![vec![0u8; PAGE_SIZE], second];
    let plan = plan_content_reads(&words);
    assert_eq!(plan.len(), 2);

    let flags = classify_virtual_segment(&words, &idlemap, &contents);
    assert_eq!(flags[0], PRESENT | ACTIVE_PAGE_MASK | ZERO_PAGE_MASK);
    assert_eq!(flags[1], 0);
    assert_eq!(flags[2], PRESENT | ACTIVE_PAGE_MASK | ZERO_PAGE_MASK);
    assert_eq!(flags[3], PRESENT | ACTIVE_PAGE_MASK);
}

#[test]
fn classify_physical_uses_true_frame_numbers() {
    // A region starting at frame 16: bits for frames 16 and 17 sit in
    // byte 2 of the bitmap, not in byte 0.
    let flag_words = vec![0u64, 0u64];
    let mut idlemap = vec![0u8; 3];
    idlemap[2] = 0b0000_0001; // frame 16 idle, frame 17 active
    let out = classify_physical_segment(&flag_words, 16 * PAGE_SIZE, &idlemap, None);
    assert_eq!(out.len(), 2);
    assert_eq!(out[0], 0);
    assert_eq!(out[1], ACTIVE_PAGE_MASK);
}

#[test]
fn classify_physical_with_content_inspection() {
    let flag_words = vec![0b1000u64, 0b1000u64];
    let idlemap = vec![0xffu8];
    let mut nonzero = vec![0u8; PAGE_SIZE];
    nonzero[0] = 9;
    let contents = vec![vec![0u8; PAGE_SIZE], nonzero];
    let out = classify_physical_segment(&flag_words, 0, &idlemap, Some(&contents));
    assert_eq!(out[0], 0b1000 | ZERO_PAGE_MASK);
    assert_eq!(out[1], 0b1000);
}

#[test]
fn classify_physical_clears_stale_active_flag() {
    let flag_words = vec![ACTIVE_PAGE_MASK | 0b111];
    let idlemap = vec![0xffu8]; // every frame idle
    let out = classify_physical_segment(&flag_words, 0, &idlemap, None);
    assert_eq!(out[0], 0b111);
}

#[test]
fn decode_words_little_endian() {
    let bytes: Vec<u8> = vec![
        0x78, 0x56, 0x34, 0x12, 0, 0, 0, 0, //
        0xff, 0, 0, 0, 0, 0, 0, 0x80,
    ];
    let words = decode_table_words(&bytes);
    assert_eq!(words, vec![0x12345678u64, 0x80000000000000ffu64]);
    assert_eq!(decode_table_words(&[]).len(), 0);
}

#[test]
fn encode_words_little_endian() {
    let bytes = encode_page_flags(&[0x0102030405060708u64]);
    assert_eq!(bytes, vec![8, 7, 6, 5, 4, 3, 2, 1]);
}

#[test]
fn encode_decode_round_trip() {
    let words = vec![0u64, u64::MAX, PRESENT | 42, 0xdeadbeef];
    let decoded = decode_table_words(&encode_page_flags(&words));
    assert_eq!(decoded, words);
}

#[test]
fn table_span_eight_bytes_per_page() {
    let (offset, len) = segment_table_span(0x2000, 0x5000);
    assert_eq!(offset, 2 * 8);
    assert_eq!(len, 5 * 8);
    let (offset, len) = segment_table_span(0, 0);
    assert_eq!(offset, 0);
    assert_eq!(len, 0);
}

#[test]
fn summary_encodes_each_segment() {
    let memory = ProcessMemory {
        timestamp: 1_700_000_000,
        segments: vec![
            Segment { addr_start: 0x1000, page_flags: vec![1, 2] },
            Segment { addr_start: 0x2000, page_flags: vec![PRESENT] },
        ],
    };
    let summaries = process_to_page_summary(&memory);
    assert_eq!(summaries.len(), 2);
    assert_eq!(summaries[0].0, 0x1000);
    assert_eq!(
        summaries[0].1,
        vec![1, 0, 0, 0, 0, 0, 0, 0, 2, 0, 0, 0, 0, 0, 0, 0]
    );
    assert_eq!(summaries[1].0, 0x2000);
    assert_eq!(summaries[1].1, vec![0, 0, 0, 0, 0, 0, 0, 0x80]);
}

#[test]
fn analytics_counts_flags() {
    let memory = ProcessMemory {
        timestamp: 0,
        segments: vec![
            Segment {
                addr_start: 0,
                page_flags: vec![ZERO_PAGE_MASK, ACTIVE_PAGE_MASK, 0],
            },
            Segment {
                addr_start: 0x10000,
                page_flags: vec![ZERO_PAGE_MASK | ACTIVE_PAGE_MASK],
            },
        ],
    };
    let counts = page_analytics(&memory);
    assert_eq!(counts.total_pages, 4);
    assert_eq!(counts.zero_pages, 2);
    assert_eq!(counts.active_pages, 2);
}

#[test]
fn host_scenario_two_regions() {
    // Two physical regions: frames 0..2000 and, at 8 GiB, frames
    // 2097152..2098652. The idle bitmap marks frames 0..500 idle and every
    // other frame active.
    let region1_start: usize = 0;
    let region1_frames: usize = 2000;
    let region2_start: usize = 8_589_934_592;
    let region2_frames: usize = 1500;

    let mut idlemap = vec![0u8; (region2_start / PAGE_SIZE + region2_frames + 7) / 8];
    for byte in idlemap.iter_mut().take(62) {
        *byte = 0xff;
    }
    idlemap[62] = 0x0f; // frames 496..500 idle, 500..504 active

    let flags1 = vec![0u64; region1_frames];
    let flags2 = vec![0u64; region2_frames];
    let out1 = classify_physical_segment(&flags1, region1_start, &idlemap, None);
    let out2 = classify_physical_segment(&flags2, region2_start, &idlemap, None);

    for frame in 0..500 {
        assert_eq!(out1[frame], 0, "frame {} should be idle", frame);
    }
    for frame in 500..2000 {
        assert_eq!(out1[frame], ACTIVE_PAGE_MASK, "frame {} should be active", frame);
    }
    for frame in 0..region2_frames {
        assert_eq!(out2[frame], ACTIVE_PAGE_MASK);
    }

    let memory = ProcessMemory {
        timestamp: 1_700_000_000,
        segments: vec![
            Segment { addr_start: region1_start, page_flags: out1 },
            Segment { addr_start: region2_start, page_flags: out2 },
        ],
    };
    let counts = page_analytics(&memory);
    assert_eq!(counts.total_pages, 3500);
    assert_eq!(counts.active_pages, 3000);
    assert_eq!(counts.total_pages - counts.active_pages, 500);
    assert_eq!(counts.zero_pages, 0);
}
