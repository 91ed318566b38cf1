//! The two 64-bit word formats the pipeline moves between.
//!
//! A raw word is read from a kernel table: in virtual mode a translation word
//! (bit 63 present, bit 62 swapped, bits 0-54 the frame number), in physical
//! mode a per-frame flag word. A persisted word is what a snapshot keeps: the
//! same 64-bit container with bit 24 repurposed as the zero-page flag and bit
//! 27 as the recently-active flag, and, in virtual mode, the frame number
//! cleared. All shifting and masking lives here; the classifier goes through
//! the named accessors and conversions below.

use vstd::prelude::*;

verus! {

/// Bit 63 of a translation word: the page is present (resident or swapped).
pub const PRESENT_MASK: u64 = 1u64 << 63;

/// Bit 62 of a translation word: the page has been moved to swap.
pub const SWAP_MASK: u64 = 1u64 << 62;

/// Bits 0-54 of a translation word: the physical frame number, valid only
/// for a present, unswapped page.
pub const PFN_MASK: u64 = 0x7f_ffff_ffff_ffff;

/// Bit 24 of a persisted word: the page's contents were all zero.
pub const ZERO_PAGE_MASK: u64 = 1u64 << 24;

/// Bit 27 of a persisted word: the frame was accessed during the window.
pub const ACTIVE_PAGE_MASK: u64 = 1u64 << 27;

/// A word marks its page present when bit 63 is set.
pub open spec fn present(w: u64) -> bool {
    w & PRESENT_MASK != 0
}

/// The raw swap bit, without regard to presence.
pub open spec fn swap_flagged(w: u64) -> bool {
    w & SWAP_MASK != 0
}

/// A page counts as swapped only when it is also present, so a swapped page
/// is always a present page.
pub open spec fn swapped(w: u64) -> bool {
    present(w) && swap_flagged(w)
}

/// Present and not swapped: the page is resident in a physical frame.
pub open spec fn resident(w: u64) -> bool {
    present(w) && !swap_flagged(w)
}

/// The physical frame number of a resident page.
pub open spec fn frame_number(w: u64) -> u64 {
    w & PFN_MASK
}

/// How a page was classified; one of the four statuses a persisted word
/// can express.
#[derive(Clone, Copy, PartialEq, Eq, Structural, Debug)]
pub enum PageStatus {
    /// Not mapped to memory or swap.
    Unmapped,
    /// Mapped, but moved out to swap.
    Swapped,
    /// Resident and untouched over the sampling window.
    Idle,
    /// Resident and accessed during the sampling window.
    Active,
}

/// A raw 64-bit word as decoded from a kernel table, before classification.
#[derive(Clone, Copy, PartialEq, Eq, Structural, Debug)]
pub struct TranslationWord {
    pub raw: u64,
}

/// A classified 64-bit word as a snapshot persists it.
#[derive(Clone, Copy, PartialEq, Eq, Structural, Debug)]
pub struct PersistedWord {
    pub raw: u64,
}

impl TranslationWord {
    /// Bit 63: the page is present.
    pub fn present(&self) -> (r: bool)
        ensures
            r == present(self.raw),
    {
        self.raw & PRESENT_MASK != 0
    }

    /// Present and bit 62: the page sits in swap.
    pub fn swapped(&self) -> (r: bool)
        ensures
            r == swapped(self.raw),
    {
        (self.raw & PRESENT_MASK != 0) && (self.raw & SWAP_MASK != 0)
    }

    /// Present without the swap bit: the page is resident.
    pub fn resident(&self) -> (r: bool)
        ensures
            r == resident(self.raw),
    {
        (self.raw & PRESENT_MASK != 0) && (self.raw & SWAP_MASK == 0)
    }

    /// Bits 0-54: the frame number of a resident page.
    pub fn frame_number(&self) -> (r: u64)
        ensures
            r == frame_number(self.raw),
    {
        self.raw & PFN_MASK
    }
}

/// A persisted word for a resident page in virtual mode: the frame number
/// bits are cleared (they are not retained in the output) and the freshly
/// computed active and zero flags are merged in.
pub open spec fn spec_persist_resident(w: u64, active: bool, zero: bool) -> u64 {
    (w & !PFN_MASK) | (if active {
        ACTIVE_PAGE_MASK
    } else {
        0u64
    }) | (if zero {
        ZERO_PAGE_MASK
    } else {
        0u64
    })
}

/// A persisted word in physical mode: the pre-existing active flag from the
/// source table is cleared and the freshly computed active and zero flags
/// are merged in; all other source bits pass through.
pub open spec fn spec_persist_frame(w: u64, active: bool, zero: bool) -> u64 {
    (w & !ACTIVE_PAGE_MASK) | (if active {
        ACTIVE_PAGE_MASK
    } else {
        0u64
    }) | (if zero {
        ZERO_PAGE_MASK
    } else {
        0u64
    })
}

impl TranslationWord {
    /// The one conversion from a raw virtual-mode word to its persisted form,
    /// for a resident page whose activity and content have been determined.
    pub fn persist_resident(&self, active: bool, zero: bool) -> (r: PersistedWord)
        requires
            resident(self.raw),
        ensures
            r.raw == spec_persist_resident(self.raw, active, zero),
            r.spec_status() == (if active {
                PageStatus::Active
            } else {
                PageStatus::Idle
            }),
            r.spec_is_zero() == zero,
    {
        let aflag: u64 = if active { ACTIVE_PAGE_MASK } else { 0u64 };
        let zflag: u64 = if zero { ZERO_PAGE_MASK } else { 0u64 };
        let r = PersistedWord { raw: (self.raw & !PFN_MASK) | aflag | zflag };
        proof {
            let w = self.raw;
            assert(present(w) && !swap_flagged(w) ==> {
                let out = spec_persist_resident(w, active, zero);
                &&& present(out)
                &&& !swap_flagged(out)
                &&& (out & ACTIVE_PAGE_MASK != 0) == active
                &&& (out & ZERO_PAGE_MASK != 0) == zero
            }) by (bit_vector);
        }
        r
    }

    /// A page that is unmapped or swapped is persisted unchanged.
    pub fn persist_unchanged(&self) -> (r: PersistedWord)
        ensures
            r.raw == self.raw,
    {
        PersistedWord { raw: self.raw }
    }

    /// The one conversion from a raw physical-mode frame-flag word to its
    /// persisted form: every frame is resident by construction of the region
    /// list, so only the activity and zero flags are replaced.
    pub fn persist_frame(&self, active: bool, zero: bool) -> (r: PersistedWord)
        ensures
            r.raw == spec_persist_frame(self.raw, active, zero),
            (r.raw & ACTIVE_PAGE_MASK != 0) == active,
            r.spec_is_zero() == (zero || self.raw & ZERO_PAGE_MASK != 0),
    {
        let aflag: u64 = if active { ACTIVE_PAGE_MASK } else { 0u64 };
        let zflag: u64 = if zero { ZERO_PAGE_MASK } else { 0u64 };
        let r = PersistedWord { raw: (self.raw & !ACTIVE_PAGE_MASK) | aflag | zflag };
        proof {
            let w = self.raw;
            assert({
                let out = spec_persist_frame(w, active, zero);
                &&& (out & ACTIVE_PAGE_MASK != 0) == active
                &&& ((out & ZERO_PAGE_MASK != 0) == (zero || w & ZERO_PAGE_MASK != 0))
            }) by (bit_vector);
        }
        r
    }
}

impl PersistedWord {
    /// The status a persisted word expresses, read back from its bits.
    pub open spec fn spec_status(self) -> PageStatus {
        if !present(self.raw) {
            PageStatus::Unmapped
        } else if swap_flagged(self.raw) {
            PageStatus::Swapped
        } else if self.raw & ACTIVE_PAGE_MASK != 0 {
            PageStatus::Active
        } else {
            PageStatus::Idle
        }
    }

    /// Whether the zero-page flag is set.
    pub open spec fn spec_is_zero(self) -> bool {
        self.raw & ZERO_PAGE_MASK != 0
    }

    /// Extracts the status encoded in this word.
    pub fn status(&self) -> (r: PageStatus)
        ensures
            r == self.spec_status(),
    {
        if self.raw & PRESENT_MASK == 0 {
            PageStatus::Unmapped
        } else if self.raw & SWAP_MASK != 0 {
            PageStatus::Swapped
        } else if self.raw & ACTIVE_PAGE_MASK != 0 {
            PageStatus::Active
        } else {
            PageStatus::Idle
        }
    }

    /// Extracts the zero-page flag.
    pub fn is_zero(&self) -> (r: bool)
        ensures
            r == self.spec_is_zero(),
    {
        self.raw & ZERO_PAGE_MASK != 0
    }

    /// The word that packing a status and a zero flag produces.
    pub open spec fn spec_pack(status: PageStatus, zero: bool) -> PersistedWord {
        let base: u64 = match status {
            PageStatus::Unmapped => 0u64,
            PageStatus::Swapped => PRESENT_MASK | SWAP_MASK,
            PageStatus::Idle => PRESENT_MASK,
            PageStatus::Active => PRESENT_MASK | ACTIVE_PAGE_MASK,
        };
        PersistedWord { raw: base | (if zero { ZERO_PAGE_MASK } else { 0u64 }) }
    }

    /// Packs a status and a zero flag into a persisted word. Re-extracting
    /// with `status` and `is_zero` reproduces the identical pair, for every
    /// combination of the four statuses with both zero states.
    pub fn pack(status: PageStatus, zero: bool) -> (r: PersistedWord)
        ensures
            r == PersistedWord::spec_pack(status, zero),
            r.spec_status() == status,
            r.spec_is_zero() == zero,
    {
        let base: u64 = match status {
            PageStatus::Unmapped => 0u64,
            PageStatus::Swapped => PRESENT_MASK | SWAP_MASK,
            PageStatus::Idle => PRESENT_MASK,
            PageStatus::Active => PRESENT_MASK | ACTIVE_PAGE_MASK,
        };
        let r = PersistedWord { raw: base | (if zero { ZERO_PAGE_MASK } else { 0u64 }) };
        proof {
            lemma_persisted_round_trip(status, zero);
        }
        r
    }
}

/// Presence is exactly bit 63, and a swapped word is always a present word.
pub proof fn lemma_translation_word_bits(w: u64)
    ensures
        present(w) == (w & (1u64 << 63) != 0),
        swapped(w) ==> present(w),
{
}

/// Packing any of the four statuses with either zero state into a persisted
/// word and re-extracting the pair returns exactly what was packed.
pub proof fn lemma_persisted_round_trip(status: PageStatus, zero: bool)
    ensures
        PersistedWord::spec_pack(status, zero).spec_status() == status,
        PersistedWord::spec_pack(status, zero).spec_is_zero() == zero,
{
    let z: u64 = if zero { ZERO_PAGE_MASK } else { 0u64 };
    assert({
        let w0 = 0u64 | z;
        let w1 = (PRESENT_MASK | SWAP_MASK) | z;
        let w2 = PRESENT_MASK | z;
        let w3 = (PRESENT_MASK | ACTIVE_PAGE_MASK) | z;
        &&& !present(w0)
        &&& present(w1) && swap_flagged(w1)
        &&& present(w2) && !swap_flagged(w2) && w2 & ACTIVE_PAGE_MASK == 0
        &&& present(w3) && !swap_flagged(w3) && w3 & ACTIVE_PAGE_MASK != 0
        &&& (w0 & ZERO_PAGE_MASK != 0) == zero
        &&& (w1 & ZERO_PAGE_MASK != 0) == zero
        &&& (w2 & ZERO_PAGE_MASK != 0) == zero
        &&& (w3 & ZERO_PAGE_MASK != 0) == zero
    }) by (bit_vector)
        requires
            z == if zero { ZERO_PAGE_MASK } else { 0u64 },
    ;
}

} // verus!
