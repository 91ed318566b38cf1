//! Decoding a kernel binary table: a region's slice of the per-page
//! translation table or the per-frame flags table.
//!
//! Both tables hold 8 bytes per page, seekable by page index. For a region,
//! the reader seeks to `(start / PAGE_SIZE) * 8`, reads exactly
//! `(size / PAGE_SIZE) * 8` bytes, and interprets them as little-endian
//! 64-bit words in address order. The seek and the exact read are the
//! unverified shell's job; the span arithmetic and the word decoding are
//! verified here.

use vstd::prelude::*;
use vstd::bytes::spec_u64_from_le_bytes;
use byteorder::ByteOrder;

verus! {

/// The words a byte buffer spells out, 8 little-endian bytes each.
pub open spec fn spec_words_from_le_bytes(bytes: Seq<u8>) -> Seq<u64> {
    Seq::new((bytes.len() / 8) as nat, |i: int| spec_u64_from_le_bytes(bytes.subrange(8 * i, 8 * i + 8)))
}

/// Relies on byteorder's `LittleEndian::read_u64_into`: reads one
/// little-endian 64-bit word per 8 source bytes into the destination, and
/// panics unless the source holds exactly 8 bytes per destination word.
#[verifier::external_body]
fn read_words_le(bytes: &[u8], count: usize) -> (words: Vec<u64>)
    requires
        bytes@.len() == 8 * count,
    ensures
        words@.len() == count,
        forall|i: int|
            0 <= i < count ==> #[trigger] words@[i] == spec_u64_from_le_bytes(
                bytes@.subrange(8 * i, 8 * i + 8),
            ),
{
    let mut words: Vec<u64> = vec![0u64; count];
    byteorder::LittleEndian::read_u64_into(bytes, &mut words);
    words
}

/// Interprets a table buffer as its sequence of little-endian 64-bit words,
/// one per page, in address order.
pub fn decode_table_words(bytes: &[u8]) -> (words: Vec<u64>)
    requires
        bytes@.len() % 8 == 0,
    ensures
        words@ == spec_words_from_le_bytes(bytes@),
{
    let count = bytes.len() / 8;
    let words = read_words_le(bytes, count);
    proof {
        assert(words@ =~= spec_words_from_le_bytes(bytes@));
    }
    words
}

/// Where a region's words sit in a kernel table: the byte offset to seek to
/// and the exact byte count to read. A shorter read is a hard error, which
/// the caller must not pad over.
pub fn segment_table_span(start_address: usize, size: usize) -> (r: (u64, usize))
    requires
        start_address as int % (crate::PAGE_SIZE as int) == 0,
    ensures
        r.0 == (start_address as int / (crate::PAGE_SIZE as int)) * 8,
        r.1 == (size as int / (crate::PAGE_SIZE as int)) * 8,
{
    let offset: u64 = (start_address / crate::PAGE_SIZE) as u64 * 8;
    let byte_len: usize = (size / crate::PAGE_SIZE) * 8;
    (offset, byte_len)
}

} // verus!
