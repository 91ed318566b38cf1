//! Working-set estimation over kernel page-introspection data.
//!
//! One sampling cycle resets the kernel's per-frame idle bitmap, waits out a
//! sampling window, reads the bitmap back, decodes per-page translation or
//! per-frame flag words, and classifies every page as unmapped, swapped, idle
//! or recently active, optionally marking pages whose contents are all zero.
//! The result is an immutable, bit-packed snapshot.
//!
//! This crate holds the verified core: word formats and bit packing, the idle
//! bitmap lookup, region-listing parsers, the little-endian table decoder,
//! contiguous-run planning for batched content reads, the page classifier,
//! snapshot statistics, and the persisted byte encoding. The unverified shell
//! around it performs the actual file reads and writes and drives the cycle.

#![allow(unused_imports)]
use vstd::prelude::*;

pub mod classify;
pub mod decode;
pub mod persist;
pub mod idle;
pub mod reader;
pub mod segments;
pub mod statistics;
pub mod words;

verus! {

/// Number of bytes in one virtual page or physical frame.
pub const PAGE_SIZE: usize = 4096;

/// Virtual regions smaller than this many bytes (1000 pages) are noise and
/// are excluded from a process-targeted sampling cycle.
pub const SEGMENT_THRESHOLD: usize = 1000 * 4096;

/// First virtual address at or above which mappings belong to the kernel
/// half of a 64-bit address space; such regions are never sampled.
pub const USERSPACE_END: u64 = 0xffff800000000000;

/// Bit position, in a persisted flag word, marking a page whose contents
/// were all zero when inspected.
pub const ZERO_PAGE_BIT: u8 = 24;

/// Bit position, in a persisted flag word, marking a frame that was accessed
/// during the sampling window.
pub const ACTIVE_PAGE_BIT: u8 = 27;

/// One sampled memory region: a frame-aligned start address and one persisted
/// 64-bit flag word per page, in ascending address order.
pub struct Segment {
    pub addr_start: usize,
    pub page_flags: Vec<u64>,
}

/// The immutable result of one sampling cycle.
pub struct ProcessMemory {
    /// Seconds since the Unix epoch at the capture point of the cycle.
    pub timestamp: i64,
    pub segments: Vec<Segment>,
}

} // verus!
