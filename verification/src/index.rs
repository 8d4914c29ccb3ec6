//! Index block decoding.
//!
//! An indexed file stores, as the payload of an ordinary frame, a block of
//! `N` eight-byte big-endian signed frame offsets, one eight-byte big-endian
//! signed trailer offset, and the seven ASCII marker bytes spelling
//! `INDEXED`. The block is validated in a fixed order before any offset is
//! parsed; the offsets keep their file order, since the `i`-th offset is the
//! byte position of the `i`-th indexed frame.

use crate::big_endian::{be_bytes_of_i64, be_i64, lemma_be_bytes_of_i64, read_be_i64};
use crate::errors::{IndexFault, LogError};
use vstd::prelude::*;

verus! {

/// The seven ASCII bytes that spell the index marker `INDEXED`.
pub open spec fn indexed_marker() -> Seq<u8> {
    seq![73u8, 78u8, 68u8, 69u8, 88u8, 69u8, 68u8]
}

/// The byte of the index marker at position `i`.
pub fn indexed_marker_byte(i: usize) -> (b: u8)
    requires
        i < 7,
    ensures
        b == indexed_marker()[i as int],
{
    match i {
        0 => 73,
        1 => 78,
        2 => 68,
        3 => 69,
        4 => 88,
        5 => 69,
        _ => 68,
    }
}

/// Whether the final seven bytes of `s` are exactly the index marker.
pub open spec fn ends_with_marker(s: Seq<u8>) -> bool {
    s.len() >= 7 && s.subrange(s.len() - 7, s.len() as int) == indexed_marker()
}

/// Checks whether the final seven bytes of `data` are exactly the index
/// marker.
pub fn slice_ends_with_marker(data: &[u8]) -> (r: bool)
    ensures
        r == ends_with_marker(data@),
{
    let n: usize = data.len();
    if n < 7 {
        return false;
    }
    let mut k: usize = 0;
    while k < 7
        invariant
            n == data@.len(),
            n >= 7,
            k <= 7,
            forall|j: int| 0 <= j < k ==> #[trigger] data@[n - 7 + j] == indexed_marker()[j],
        decreases 7 - k,
    {
        if data[n - 7 + k] != indexed_marker_byte(k) {
            proof {
                let tail = data@.subrange(n - 7, n as int);
                assert(tail[k as int] == data@[n - 7 + k]);
                assert(tail[k as int] != indexed_marker()[k as int]);
            }
            return false;
        }
        k = k + 1;
    }
    proof {
        let tail = data@.subrange(n - 7, n as int);
        assert forall|j: int| 0 <= j < 7 implies tail[j] == indexed_marker()[j] by {
            assert(tail[j] == data@[n - 7 + j]);
        }
        assert(tail =~= indexed_marker());
    }
    true
}

/// The first check an index block payload fails, if any, in validation order:
/// the minimal length, then the eight-byte alignment of the offset area, then
/// the trailing marker.
pub open spec fn index_fault(s: Seq<u8>) -> Option<IndexFault> {
    if s.len() < 15 {
        Some(IndexFault::NotEnoughBytes)
    } else if (s.len() - 15) % 8 != 0 {
        Some(IndexFault::Misaligned)
    } else if !ends_with_marker(s) {
        Some(IndexFault::MarkerNotFound)
    } else {
        None
    }
}

/// Whether `s` is a well-formed index block payload.
pub open spec fn index_well_formed(s: Seq<u8>) -> bool {
    index_fault(s) is None
}

/// The number of frame offsets a well-formed index block payload holds.
pub open spec fn index_num_offsets(s: Seq<u8>) -> int {
    (s.len() - 15) / 8
}

/// The `i`-th frame offset stored in the block.
pub open spec fn index_offset_at(s: Seq<u8>, i: int) -> int {
    be_i64(s.subrange(8 * i, 8 * i + 8))
}

/// The trailer offset stored just before the marker.
pub open spec fn index_trailer(s: Seq<u8>) -> int {
    be_i64(s.subrange(s.len() - 15, s.len() - 7))
}

/// Whether a decoded index message carries exactly the offsets and trailer
/// offset of the well-formed block `s`.
pub open spec fn index_matches(m: IndexMessage, s: Seq<u8>) -> bool {
    &&& m.offsets@.len() == index_num_offsets(s)
    &&& forall|i: int|
        0 <= i < m.offsets@.len() ==> #[trigger] m.offsets@[i] == index_offset_at(s, i)
    &&& m.index_offset == index_trailer(s)
}

/// The decoded trailer block an indexed file carries at its end.
///
/// It has no independent lifecycle: it is rebuilt from bytes every time it is
/// requested and never mutated.
#[derive(Debug, Clone)]
pub struct IndexMessage {
    /// Byte offsets of the indexed frames, from the start of the file, in
    /// file order.
    pub offsets: Vec<i64>,
    /// Distance from the end of the file back to the start of the index
    /// block. Parsed, never validated against the file size: that is the
    /// caller's concern if it ever seeks.
    pub index_offset: i64,
}

impl IndexMessage {
    /// Decodes an index block payload.
    ///
    /// The three validation checks run in order before any offset is parsed;
    /// on success the result holds exactly the stored offsets, in file order,
    /// and the stored trailer offset.
    pub fn from_bytes(data: &[u8]) -> (r: Result<IndexMessage, LogError>)
        ensures
            match r {
                Ok(m) => index_well_formed(data@) && index_matches(m, data@),
                Err(LogError::MalformedIndex(f)) => index_fault(data@) == Some(f),
                Err(_) => false,
            },
    {
        let n: usize = data.len();
        if n < 15 {
            return Err(LogError::MalformedIndex(IndexFault::NotEnoughBytes));
        }
        if (n - 15) % 8 != 0 {
            return Err(LogError::MalformedIndex(IndexFault::Misaligned));
        }
        if !slice_ends_with_marker(data) {
            return Err(LogError::MalformedIndex(IndexFault::MarkerNotFound));
        }
        let num_offsets: usize = (n - 15) / 8;
        let mut offsets: Vec<i64> = Vec::new();
        let mut i: usize = 0;
        while i < num_offsets
            invariant
                n == data@.len(),
                n >= 15,
                num_offsets == (n - 15) / 8,
                (n - 15) % 8 == 0,
                i <= num_offsets,
                offsets@.len() == i,
                forall|j: int|
                    0 <= j < i ==> #[trigger] offsets@[j] == index_offset_at(data@, j),
            decreases num_offsets - i,
        {
            proof {
                assert(8 * (i as int) + 8 <= 8 * (num_offsets as int)) by (nonlinear_arith)
                    requires
                        i < num_offsets,
                ;
                assert(8 * (num_offsets as int) == n - 15) by (nonlinear_arith)
                    requires
                        num_offsets == (n - 15) / 8 && (n - 15) % 8 == 0 && n >= 15,
                ;
            }
            let offset = read_be_i64(data, 8 * i);
            offsets.push(offset);
            i = i + 1;
        }
        proof {
            assert(8 * (num_offsets as int) == n - 15) by (nonlinear_arith)
                requires
                    num_offsets == (n - 15) / 8 && (n - 15) % 8 == 0 && n >= 15,
            ;
        }
        let index_offset = read_be_i64(data, n - 15);
        Ok(IndexMessage { offsets, index_offset })
    }
}

/// The concatenated 8-byte big-endian encodings of a sequence of offsets.
pub open spec fn encode_offsets(offsets: Seq<i64>) -> Seq<u8>
    decreases offsets.len(),
{
    if offsets.len() == 0 {
        Seq::empty()
    } else {
        be_bytes_of_i64(offsets[0] as int) + encode_offsets(offsets.drop_first())
    }
}

/// An index block laid out from its parts: the offsets in order, the trailer
/// offset, and the marker.
pub open spec fn encode_index_block(offsets: Seq<i64>, trailer: i64) -> Seq<u8> {
    encode_offsets(offsets) + be_bytes_of_i64(trailer as int) + indexed_marker()
}

proof fn lemma_encode_offsets_len(offsets: Seq<i64>)
    ensures
        encode_offsets(offsets).len() == 8 * offsets.len(),
    decreases offsets.len(),
{
    if offsets.len() > 0 {
        lemma_be_bytes_of_i64(offsets[0] as int);
        lemma_encode_offsets_len(offsets.drop_first());
    }
}

proof fn lemma_encode_offsets_at(offsets: Seq<i64>, i: int)
    requires
        0 <= i < offsets.len(),
    ensures
        encode_offsets(offsets).subrange(8 * i, 8 * i + 8) == be_bytes_of_i64(offsets[i] as int),
    decreases i,
{
    lemma_encode_offsets_len(offsets);
    lemma_be_bytes_of_i64(offsets[0] as int);
    let enc = encode_offsets(offsets);
    let head = be_bytes_of_i64(offsets[0] as int);
    let rest = encode_offsets(offsets.drop_first());
    lemma_encode_offsets_len(offsets.drop_first());
    if i == 0 {
        assert(enc.subrange(0, 8) =~= head);
    } else {
        lemma_encode_offsets_at(offsets.drop_first(), i - 1);
        assert(offsets.drop_first()[i - 1] == offsets[i]);
        assert(enc.subrange(8 * i, 8 * i + 8) =~= rest.subrange(8 * (i - 1), 8 * (i - 1) + 8));
    }
}

/// Round trip: laying out any offsets, trailer offset and the marker as an
/// index block and decoding the block yields back exactly those offsets, in
/// their original order, and that trailer offset.
pub proof fn lemma_index_round_trip(offsets: Seq<i64>, trailer: i64)
    ensures
        index_well_formed(encode_index_block(offsets, trailer)),
        index_num_offsets(encode_index_block(offsets, trailer)) == offsets.len(),
        forall|i: int|
            0 <= i < offsets.len() ==> #[trigger] index_offset_at(
                encode_index_block(offsets, trailer),
                i,
            ) == offsets[i],
        index_trailer(encode_index_block(offsets, trailer)) == trailer,
{
    let enc_off = encode_offsets(offsets);
    let enc_trailer = be_bytes_of_i64(trailer as int);
    let enc = encode_index_block(offsets, trailer);
    let ghost n = offsets.len() as int;
    lemma_encode_offsets_len(offsets);
    lemma_be_bytes_of_i64(trailer as int);
    assert(enc.len() == 8 * n + 15);
    assert((8 * n + 15 - 15) % 8 == 0) by (nonlinear_arith);
    assert(enc.subrange(enc.len() - 7, enc.len() as int) =~= indexed_marker());
    assert(index_num_offsets(enc) == (8 * n) / 8);
    assert((8 * n) / 8 == n) by (nonlinear_arith);
    assert(enc.subrange(enc.len() - 15, enc.len() - 7) =~= enc_trailer);
    assert forall|i: int| 0 <= i < offsets.len() implies #[trigger] index_offset_at(enc, i)
        == offsets[i] by {
        lemma_encode_offsets_at(offsets, i);
        lemma_be_bytes_of_i64(offsets[i] as int);
        assert(enc.subrange(8 * i, 8 * i + 8) =~= enc_off.subrange(8 * i, 8 * i + 8));
    }
}

} // verus!
