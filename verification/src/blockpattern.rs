//! The pattern codec: 32-bit fingerprints decoded from a byte stream.
//!
//! A *pattern byte* (high nibble all ones) is an escape marker. One logical
//! byte is either a literal byte, or a pair of nibbles drawn from two
//! adjacent bytes when one of them is a pattern byte. Four logical bytes in
//! sequence form a fingerprint, packed big-endian. The stream can be decoded
//! forward from a start cursor or backward from an exclusive end cursor, and
//! on fully encoded, unambiguous regions both directions agree
//! (see [`lemma_forward_backward_symmetry`]).
//!
//! Running out of data never fails: missing logical bytes are zero.

use vstd::prelude::*;

verus! {

/// True of an escape marker: a byte whose high four bits are all ones.
pub open spec fn is_pattern_byte(b: u8) -> bool {
    b & 0xf0 == 0xf0
}

/// The low four bits of a byte.
pub open spec fn low_nibble(b: u8) -> u8 {
    b & 0x0f
}

/// A logical byte assembled from a high and a low nibble, both below 16.
pub open spec fn pack_nibbles(hi: u8, lo: u8) -> u8 {
    (hi << 4u8) | lo
}

/// One forward decoding step at cursor `i`: the logical byte read and the new
/// cursor. At or past the end of the data the logical byte is zero and the
/// cursor does not move.
pub open spec fn fwd_byte(data: Seq<u8>, i: int) -> (u8, int) {
    if i < 0 || i >= data.len() {
        (0u8, i)
    } else {
        let b = data[i];
        if is_pattern_byte(b) {
            if i + 1 < data.len() {
                (pack_nibbles(low_nibble(b), low_nibble(data[i + 1])), i + 2)
            } else {
                (pack_nibbles(low_nibble(b), 0u8), i + 1)
            }
        } else if i + 1 < data.len() && is_pattern_byte(data[i + 1]) {
            (pack_nibbles(low_nibble(b), low_nibble(data[i + 1])), i + 2)
        } else {
            (b, i + 1)
        }
    }
}

/// One backward decoding step before the exclusive cursor `j`: the logical
/// byte read and the new cursor. At the start of the data the logical byte is
/// zero and the cursor stays at zero.
pub open spec fn bwd_byte(data: Seq<u8>, j: int) -> (u8, int) {
    if j <= 0 {
        (0u8, 0int)
    } else {
        let b = data[j - 1];
        if is_pattern_byte(b) {
            if j - 1 > 0 {
                (pack_nibbles(low_nibble(data[j - 2]), low_nibble(b)), j - 2)
            } else {
                (pack_nibbles(0u8, low_nibble(b)), j - 1)
            }
        } else if j - 1 > 0 && is_pattern_byte(data[j - 2]) {
            (pack_nibbles(low_nibble(data[j - 2]), low_nibble(b)), j - 2)
        } else {
            (b, j - 1)
        }
    }
}

/// The fingerprint decoded forward from cursor `i`: four logical bytes,
/// most significant first.
pub open spec fn fwd_fingerprint(data: Seq<u8>, i: int) -> u32 {
    let s0 = fwd_byte(data, i);
    let s1 = fwd_byte(data, s0.1);
    let s2 = fwd_byte(data, s1.1);
    let s3 = fwd_byte(data, s2.1);
    ((s0.0 as u32) << 24u32) | ((s1.0 as u32) << 16u32) | ((s2.0 as u32) << 8u32) | (s3.0 as u32)
}

/// The cursor after decoding four logical bytes forward from cursor `i`.
pub open spec fn fwd_end(data: Seq<u8>, i: int) -> int {
    fwd_byte(data, fwd_byte(data, fwd_byte(data, fwd_byte(data, i).1).1).1).1
}

/// The fingerprint decoded backward from the exclusive cursor `j`: four
/// logical bytes, least significant first since backward scanning yields
/// bytes in reverse order.
pub open spec fn bwd_fingerprint(data: Seq<u8>, j: int) -> u32 {
    let s0 = bwd_byte(data, j);
    let s1 = bwd_byte(data, s0.1);
    let s2 = bwd_byte(data, s1.1);
    let s3 = bwd_byte(data, s2.1);
    ((s3.0 as u32) << 24u32) | ((s2.0 as u32) << 16u32) | ((s1.0 as u32) << 8u32) | (s0.0 as u32)
}

/// The cursor after decoding four logical bytes backward from cursor `j`.
pub open spec fn bwd_end(data: Seq<u8>, j: int) -> int {
    bwd_byte(data, bwd_byte(data, bwd_byte(data, bwd_byte(data, j).1).1).1).1
}

/// Reads one logical byte forward from `index`. Returns the logical byte and
/// the advanced cursor. At or past the end of `data` it yields zero and
/// leaves the cursor unchanged.
pub fn decode_byte_forward(data: &[u8], index: usize) -> (r: (u8, usize))
    ensures
        r.0 == fwd_byte(data@, index as int).0,
        r.1 as int == fwd_byte(data@, index as int).1,
        index >= data@.len() ==> r.0 == 0 && r.1 == index,
{
    if index >= data.len() {
        (0u8, index)
    } else {
        let b = data[index];
        if b & 0xf0 == 0xf0 {
            if index + 1 < data.len() {
                ((((b & 0x0f) << 4u8) | (data[index + 1] & 0x0f)), index + 2)
            } else {
                proof {
                    assert(pack_nibbles(low_nibble(b), 0u8) == (b & 0x0f) << 4u8) by (bit_vector);
                }
                ((b & 0x0f) << 4u8, index + 1)
            }
        } else if index + 1 < data.len() && data[index + 1] & 0xf0 == 0xf0 {
            ((((b & 0x0f) << 4u8) | (data[index + 1] & 0x0f)), index + 2)
        } else {
            (b, index + 1)
        }
    }
}

/// Reads one logical byte backward from the exclusive cursor `index`.
/// Returns the logical byte and the retreated cursor. At `index == 0` it
/// yields zero without moving.
pub fn decode_byte_backward(data: &[u8], index: usize) -> (r: (u8, usize))
    requires
        index <= data@.len(),
    ensures
        r.0 == bwd_byte(data@, index as int).0,
        r.1 as int == bwd_byte(data@, index as int).1,
        index == 0 ==> r.0 == 0 && r.1 == 0,
{
    if index == 0 {
        (0u8, 0)
    } else {
        let b = data[index - 1];
        if b & 0xf0 == 0xf0 {
            if index - 1 > 0 {
                ((((data[index - 2] & 0x0f) << 4u8) | (b & 0x0f)), index - 2)
            } else {
                proof {
                    assert(pack_nibbles(0u8, low_nibble(b)) == b & 0x0f) by (bit_vector);
                }
                (b & 0x0f, index - 1)
            }
        } else if index - 1 > 0 && data[index - 2] & 0xf0 == 0xf0 {
            ((((data[index - 2] & 0x0f) << 4u8) | (b & 0x0f)), index - 2)
        } else {
            (b, index - 1)
        }
    }
}

/// A 32-bit fingerprint identifying a block. Fingerprints are compared only
/// by Hamming distance, never by magnitude.
#[derive(Debug, Clone, Copy, PartialEq, Eq, Hash, Structural)]
pub struct BlockPattern {
    /// The raw 32-bit value.
    pub value: u32,
}

impl View for BlockPattern {
    type V = u32;

    open spec fn view(&self) -> u32 {
        self.value
    }
}

impl BlockPattern {
    /// Wraps a raw 32-bit value as a fingerprint.
    pub fn new(value: u32) -> (r: BlockPattern)
        ensures
            r@ == value,
    {
        BlockPattern { value }
    }

    /// The raw 32-bit value of the fingerprint.
    pub fn get(&self) -> (r: u32)
        ensures
            r == self@,
    {
        self.value
    }

    /// Decodes a fingerprint forward from `index`: four logical bytes packed
    /// big-endian, zero-filled where the data runs out.
    pub fn decode_forward(data: &[u8], index: usize) -> (r: BlockPattern)
        ensures
            r@ == fwd_fingerprint(data@, index as int),
    {
        let (b0, i1) = decode_byte_forward(data, index);
        let (b1, i2) = decode_byte_forward(data, i1);
        let (b2, i3) = decode_byte_forward(data, i2);
        let (b3, _i4) = decode_byte_forward(data, i3);
        BlockPattern {
            value: ((b0 as u32) << 24u32) | ((b1 as u32) << 16u32) | ((b2 as u32) << 8u32) | (
            b3 as u32),
        }
    }

    /// Decodes a fingerprint backward from the exclusive cursor `index`:
    /// four logical bytes read in reverse order, so packed least significant
    /// first, zero-filled where the data runs out.
    pub fn decode_backward(data: &[u8], index: usize) -> (r: BlockPattern)
        requires
            index <= data@.len(),
        ensures
            r@ == bwd_fingerprint(data@, index as int),
    {
        let (c0, j1) = decode_byte_backward(data, index);
        let (c1, j2) = decode_byte_backward(data, j1);
        let (c2, j3) = decode_byte_backward(data, j2);
        let (c3, _j4) = decode_byte_backward(data, j3);
        BlockPattern {
            value: ((c3 as u32) << 24u32) | ((c2 as u32) << 16u32) | ((c1 as u32) << 8u32) | (
            c0 as u32),
        }
    }
}

/// The logical byte starting at cursor `i` reads back identically when
/// scanned from its far end. This excludes the two ambiguous layouts: a
/// pattern byte standing alone at the very end of the data, and a lone
/// literal byte standing directly after a pattern byte.
pub open spec fn token_reversible(data: Seq<u8>, i: int) -> bool {
    &&& 0 <= i < data.len()
    &&& (is_pattern_byte(data[i]) ==> i + 1 < data.len())
    &&& ((!is_pattern_byte(data[i]) && !(i + 1 < data.len() && is_pattern_byte(data[i + 1])))
        ==> (i == 0 || !is_pattern_byte(data[i - 1])))
}

/// All four logical bytes of the fingerprint starting at cursor `i` are
/// reversible, so the whole region decodes identically in both directions.
pub open spec fn region_reversible(data: Seq<u8>, i: int) -> bool {
    let i1 = fwd_byte(data, i).1;
    let i2 = fwd_byte(data, i1).1;
    let i3 = fwd_byte(data, i2).1;
    &&& token_reversible(data, i)
    &&& token_reversible(data, i1)
    &&& token_reversible(data, i2)
    &&& token_reversible(data, i3)
}

/// Scanning backward over one reversible logical byte undoes the forward
/// step exactly: same logical byte, and the cursor returns to where the
/// forward step began.
pub proof fn lemma_byte_symmetry(data: Seq<u8>, i: int)
    requires
        token_reversible(data, i),
    ensures
        bwd_byte(data, fwd_byte(data, i).1).0 == fwd_byte(data, i).0,
        bwd_byte(data, fwd_byte(data, i).1).1 == i,
{
}

/// Forward/backward symmetry: over a region that encodes four reversible
/// logical bytes, the fingerprint decoded forward from the region's start
/// equals the fingerprint decoded backward from the position immediately
/// after the encoded bytes, and the backward scan retreats exactly to the
/// start.
pub proof fn lemma_forward_backward_symmetry(data: Seq<u8>, start: int)
    requires
        region_reversible(data, start),
    ensures
        bwd_fingerprint(data, fwd_end(data, start)) == fwd_fingerprint(data, start),
        bwd_end(data, fwd_end(data, start)) == start,
{
    let i1 = fwd_byte(data, start).1;
    let i2 = fwd_byte(data, i1).1;
    let i3 = fwd_byte(data, i2).1;
    lemma_byte_symmetry(data, start);
    lemma_byte_symmetry(data, i1);
    lemma_byte_symmetry(data, i2);
    lemma_byte_symmetry(data, i3);
}

} // verus!
