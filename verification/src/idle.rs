//! The idle-bitmap side of a sampling cycle.
//!
//! The kernel keeps one bit per physical frame: a reset writes the bitmap
//! full of ones, the kernel clears a frame's bit when hardware touches it,
//! and a later read shows which frames stayed untouched. This module holds
//! the bitmap lookup, the coverage check a reset must pass, and the host RAM
//! size the coverage check is measured against. Writing and reading the
//! bitmap file itself is the unverified shell's job.

use vstd::prelude::*;
use crate::words::ACTIVE_PAGE_MASK;

verus! {

/// A frame is active when its bit in the idle bitmap is clear: the kernel
/// clears the bit on access, so a clear bit means the frame was touched
/// after the last reset.
pub open spec fn is_active_spec(frame: u64, bitmap: Seq<u8>) -> bool
    recommends
        frame / 8 < bitmap.len(),
{
    bitmap[frame as int / 8] & (1u8 << (frame % 8)) == 0
}

/// Looks a frame up in the idle bitmap: true when the frame was accessed
/// since the last reset, false when it stayed idle.
pub fn is_active(frame: u64, bitmap: &[u8]) -> (r: bool)
    requires
        frame / 8 < bitmap@.len(),
    ensures
        r == is_active_spec(frame, bitmap@),
{
    let byte: u8 = bitmap[(frame / 8) as usize];
    byte & (1u8 << (frame % 8)) == 0
}

/// The addend a frame contributes to its persisted word: the active-page
/// mask when the idle bitmap shows the frame was touched, zero otherwise.
pub fn get_active_add(pfn: u64, idlemap: &[u8]) -> (r: u64)
    requires
        pfn / 8 < idlemap@.len(),
    ensures
        r == (if is_active_spec(pfn, idlemap@) {
            ACTIVE_PAGE_MASK
        } else {
            0u64
        }),
{
    if is_active(pfn, idlemap) {
        ACTIVE_PAGE_MASK
    } else {
        0u64
    }
}

/// Whether a reset that wrote `bytes_written` bitmap bytes covered every
/// one of `ram_pages` physical frames, at one bit per frame. A shortfall
/// means the sampling window would under-report activity, which the caller
/// must treat as fatal.
pub fn idlemap_covers(bytes_written: usize, ram_pages: u64) -> (r: bool)
    ensures
        r == (bytes_written * 8 >= ram_pages),
{
    (bytes_written as u128) * 8 >= ram_pages as u128
}

/// Relies on `sysinfo::System::total_memory`, read after
/// `System::refresh_memory`: the host's total RAM size in bytes. The value
/// depends on the machine, so nothing is promised about it.
#[verifier::external_body]
fn system_ram_bytes() -> u64 {
    let mut system = sysinfo::System::new();
    system.refresh_memory();
    system.total_memory()
}

/// The number of whole frames `bytes` bytes of RAM amount to.
pub fn frames_of_bytes(bytes: u64) -> (r: u64)
    ensures
        r == bytes / (crate::PAGE_SIZE as u64),
{
    bytes / (crate::PAGE_SIZE as u64)
}

/// The number of physical frames the host's RAM holds; what an idle-bitmap
/// reset must cover. The count comes from the machine, so no more is known
/// of it than `frames_of_bytes` states of the reported byte total.
pub fn system_ram_pages() -> u64 {
    frames_of_bytes(system_ram_bytes())
}

} // verus!
