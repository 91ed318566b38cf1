//! The persisted byte encoding of a snapshot.
//!
//! Each segment's flag words become one byte buffer: the little-endian
//! encoding of `page_flags`, 8 bytes per word, keyed by the segment's start
//! address. Writing the buffers to files or a remote object store is the
//! unverified shell's job; the byte layout itself is verified here.

use vstd::prelude::*;
use vstd::bytes::spec_u64_to_le_bytes;
use byteorder::ByteOrder;
use crate::ProcessMemory;

verus! {

/// The little-endian byte encoding of a word sequence: 8 bytes per word,
/// words in order.
pub open spec fn spec_le_bytes_from_words(words: Seq<u64>) -> Seq<u8> {
    Seq::new((8 * words.len()) as nat, |i: int| spec_u64_to_le_bytes(words[i / 8])[i % 8])
}

/// Relies on byteorder's `LittleEndian::write_u64_into`: writes each source
/// word as 8 little-endian bytes into the destination, and panics unless
/// the destination holds exactly 8 bytes per source word.
#[verifier::external_body]
fn write_words_le(words: &[u64], byte_count: usize) -> (bytes: Vec<u8>)
    requires
        byte_count == 8 * words@.len(),
    ensures
        bytes@.len() == byte_count,
        forall|i: int|
            0 <= i < words@.len() ==> #[trigger] bytes@.subrange(8 * i, 8 * i + 8)
                == spec_u64_to_le_bytes(words@[i]),
{
    let mut bytes: Vec<u8> = vec![0u8; byte_count];
    byteorder::LittleEndian::write_u64_into(words, &mut bytes);
    bytes
}

/// Encodes one segment's flag words as the byte buffer a snapshot persists.
pub fn encode_page_flags(words: &[u64]) -> (bytes: Vec<u8>)
    requires
        8 * words@.len() <= usize::MAX,
    ensures
        bytes@ == spec_le_bytes_from_words(words@),
{
    let byte_count: usize = 8 * words.len();
    let bytes = write_words_le(words, byte_count);
    proof {
        assert forall|i: int| 0 <= i < bytes@.len() implies bytes@[i] == spec_le_bytes_from_words(
            words@,
        )[i] by {
            let w = i / 8;
            let b = i % 8;
            assert(0 <= w < words@.len());
            assert(0 <= b < 8);
            assert(bytes@.subrange(8 * w, 8 * w + 8) == spec_u64_to_le_bytes(words@[w]));
            assert(bytes@.subrange(8 * w, 8 * w + 8)[b] == bytes@[8 * w + b]);
            assert(8 * w + b == i);
        }
        assert(bytes@ =~= spec_le_bytes_from_words(words@));
    }
    bytes
}

/// Turns a snapshot into its persisted form: for each segment, in order,
/// the segment's start address paired with the little-endian encoding of
/// its flag words.
pub fn process_to_page_summary(memory: &ProcessMemory) -> (summaries: Vec<(usize, Vec<u8>)>)
    requires
        forall|s: int|
            0 <= s < memory.segments@.len() ==> 8 * (#[trigger] memory.segments@[s]).page_flags@.len()
                <= usize::MAX,
    ensures
        summaries@.len() == memory.segments@.len(),
        forall|s: int|
            0 <= s < summaries@.len() ==> {
                &&& (#[trigger] summaries@[s]).0 == memory.segments@[s].addr_start
                &&& summaries@[s].1@ == spec_le_bytes_from_words(memory.segments@[s].page_flags@)
            },
{
    let mut summaries: Vec<(usize, Vec<u8>)> = Vec::new();
    let mut s: usize = 0;
    while s < memory.segments.len()
        invariant
            forall|t: int|
                0 <= t < memory.segments@.len() ==> 8 * (#[trigger] memory.segments@[t]).page_flags@.len()
                    <= usize::MAX,
            s <= memory.segments@.len(),
            summaries@.len() == s,
            forall|t: int|
                0 <= t < s ==> {
                    &&& (#[trigger] summaries@[t]).0 == memory.segments@[t].addr_start
                    &&& summaries@[t].1@ == spec_le_bytes_from_words(
                        memory.segments@[t].page_flags@,
                    )
                },
        decreases memory.segments@.len() - s,
    {
        let segment = &memory.segments[s];
        let bytes = encode_page_flags(segment.page_flags.as_slice());
        summaries.push((segment.addr_start, bytes));
        s += 1;
    }
    summaries
}

} // verus!
