//! The block/strand model and the resolver.
//!
//! A strand's raw bytes are partitioned at every zero delimiter byte into
//! blocks; each block's fingerprint is the forward codec decode of its own
//! bytes from offset zero, computed once at construction. A shared fuzzy
//! index over many strands is filled in rounds: round `k` inserts, for every
//! strand owning a block at ordinal position `k`, that block's fingerprint
//! keyed to its `BlockId`, strands visited in enumeration order. The
//! resolver delegates lookups to the index.

use crate::blockid::BlockId;
use crate::blockpattern::{fwd_fingerprint, BlockPattern};
use crate::fuzzy::{entries_from, ranked_matches, FuzzyBitMap, MatchChance};
use vstd::prelude::*;

verus! {

/// The position of the first zero byte of `data`, or `-1` when no byte is
/// zero.
pub open spec fn first_zero(data: Seq<u8>) -> int
    decreases data.len(),
{
    if data.len() == 0 {
        -1
    } else if data[0] == 0 {
        0
    } else {
        let rest = first_zero(data.skip(1));
        if rest < 0 {
            -1
        } else {
            rest + 1
        }
    }
}

/// `first_zero` finds a zero byte when one exists, and the earliest one.
pub proof fn lemma_first_zero(data: Seq<u8>)
    ensures
        first_zero(data) >= 0 ==> first_zero(data) < data.len() && data[first_zero(data)] == 0,
        first_zero(data) >= 0 ==> forall|i: int| 0 <= i < first_zero(data) ==> data[i] != 0,
        first_zero(data) == -1 ==> forall|i: int| 0 <= i < data.len() ==> data[i] != 0,
    decreases data.len(),
{
    if data.len() == 0 {
    } else if data[0] == 0 {
    } else {
        let tail = data.skip(1);
        lemma_first_zero(tail);
        assert(forall|i: int| 0 <= i < tail.len() ==> tail[i] == data[i + 1]);
        let rest = first_zero(tail);
        if rest >= 0 {
            assert(data[rest + 1] == tail[rest]);
            assert forall|i: int| 0 <= i < rest + 1 implies data[i] != 0 by {
                if i > 0 {
                    assert(tail[i - 1] == data[i]);
                }
            }
        } else {
            assert forall|i: int| 0 <= i < data.len() implies data[i] != 0 by {
                if i > 0 {
                    assert(tail[i - 1] == data[i]);
                }
            }
        }
    }
}

/// The first zero is the position of any zero byte that no zero precedes.
pub proof fn lemma_first_zero_at(data: Seq<u8>, m: int)
    requires
        0 <= m < data.len(),
        data[m] == 0,
        forall|i: int| 0 <= i < m ==> data[i] != 0,
    ensures
        first_zero(data) == m,
{
    lemma_first_zero(data);
}

/// The pieces of `data` partitioned at every zero byte: the delimiter is
/// consumed and belongs to neither side, so `n` zero bytes yield `n + 1`
/// pieces, empty pieces included.
pub open spec fn split_at_zero(data: Seq<u8>) -> Seq<Seq<u8>>
    decreases data.len(),
    via split_at_zero_decreases
{
    let fz = first_zero(data);
    if fz < 0 {
        seq![data]
    } else {
        seq![data.take(fz)] + split_at_zero(data.skip(fz + 1))
    }
}

#[via_fn]
proof fn split_at_zero_decreases(data: Seq<u8>) {
    if first_zero(data) >= 0 {
        lemma_first_zero(data);
    }
}

/// An identified segment of a byte stream: a fingerprint plus the raw bytes
/// between delimiters. Immutable once created; owned by its strand.
pub struct Block {
    /// The fingerprint, decoded once at construction from the block's own
    /// bytes starting at offset zero.
    pub pattern: BlockPattern,
    /// The block's bytes, delimiters excluded.
    pub bytes: Vec<u8>,
}

/// One independent program stream: an ordered sequence of blocks, never
/// mutated after construction.
pub struct Strand {
    blocks: Vec<Block>,
}

impl View for Strand {
    type V = Seq<Block>;

    closed spec fn view(&self) -> Seq<Block> {
        self.blocks@
    }
}

impl Strand {
    /// Splits `data` at every zero byte and decodes each piece's fingerprint
    /// forward from the piece's own offset zero.
    pub fn from_bytes(data: &[u8]) -> (r: Strand)
        ensures
            r@.map_values(|b: Block| b.bytes@) == split_at_zero(data@),
            forall|k: int|
                0 <= k < r@.len() ==> (#[trigger] r@[k]).pattern@ == fwd_fingerprint(
                    r@[k].bytes@,
                    0,
                ),
    {
        let ghost whole = data@;
        let mut blocks: Vec<Block> = Vec::new();
        let mut current: Vec<u8> = Vec::new();
        let mut start: usize = 0;
        let mut i: usize = 0;
        proof {
            assert(whole.skip(0) =~= whole);
            assert(blocks@.map_values(|b: Block| b.bytes@) + split_at_zero(whole) =~= split_at_zero(
                whole,
            ));
        }
        while i < data.len()
            invariant
                whole == data@,
                start <= i <= whole.len(),
                current@ == whole.subrange(start as int, i as int),
                forall|j: int| start <= j < i ==> whole[j] != 0,
                split_at_zero(whole) == blocks@.map_values(|b: Block| b.bytes@) + split_at_zero(
                    whole.skip(start as int),
                ),
                forall|k: int|
                    0 <= k < blocks@.len() ==> (#[trigger] blocks@[k]).pattern@ == fwd_fingerprint(
                        blocks@[k].bytes@,
                        0,
                    ),
            decreases whole.len() - i,
        {
            let byte = data[i];
            if byte == 0 {
                let ghost tail = whole.skip(start as int);
                proof {
                    assert(tail[i - start] == 0);
                    assert forall|j: int| 0 <= j < i - start implies tail[j] != 0 by {
                        assert(tail[j] == whole[start + j]);
                    }
                    lemma_first_zero_at(tail, i - start);
                    assert(tail.take(i - start) =~= whole.subrange(start as int, i as int));
                    assert(tail.skip(i - start + 1) =~= whole.skip(i + 1));
                }
                let pattern = BlockPattern::decode_forward(current.as_slice(), 0);
                let block = Block { pattern, bytes: current };
                let ghost old_blocks = blocks@;
                blocks.push(block);
                proof {
                    assert(blocks@.map_values(|b: Block| b.bytes@) =~= old_blocks.map_values(
                        |b: Block| b.bytes@,
                    ).push(whole.subrange(start as int, i as int)));
                    assert(split_at_zero(whole) =~= blocks@.map_values(|b: Block| b.bytes@)
                        + split_at_zero(whole.skip(i + 1)));
                }
                current = Vec::new();
                start = i + 1;
                proof {
                    assert(current@ =~= whole.subrange(start as int, start as int));
                }
            } else {
                current.push(byte);
                proof {
                    assert(current@ =~= whole.subrange(start as int, i + 1));
                }
            }
            i = i + 1;
        }
        let ghost tail = whole.skip(start as int);
        proof {
            assert forall|j: int| 0 <= j < tail.len() implies tail[j] != 0 by {
                assert(tail[j] == whole[start + j]);
            }
            lemma_first_zero(tail);
            assert(first_zero(tail) == -1);
            assert(tail =~= whole.subrange(start as int, whole.len() as int));
        }
        let pattern = BlockPattern::decode_forward(current.as_slice(), 0);
        let block = Block { pattern, bytes: current };
        let ghost old_blocks = blocks@;
        blocks.push(block);
        proof {
            assert(blocks@.map_values(|b: Block| b.bytes@) =~= old_blocks.map_values(
                |b: Block| b.bytes@,
            ).push(tail));
            assert(split_at_zero(whole) =~= blocks@.map_values(|b: Block| b.bytes@));
        }
        Strand { blocks }
    }
}

/// The fingerprints of one strand's blocks, in ordinal order.
pub open spec fn strand_patterns(strand: Strand) -> Seq<u32> {
    strand@.map_values(|b: Block| b.pattern@)
}

/// The index entries contributed by the first `s` strands during round `k`:
/// one entry per strand owning a block at ordinal position `k`, strands in
/// enumeration order.
pub open spec fn round_entries(strands: Seq<Strand>, k: int, s: int) -> Seq<(u32, BlockId)>
    decreases s,
{
    if s <= 0 {
        Seq::empty()
    } else {
        round_entries(strands, k, s - 1) + (if 0 <= k < strands[s - 1]@.len() {
            seq![
                (
                    strands[s - 1]@[k].pattern@,
                    BlockId { strand_id: (s - 1) as usize, block_index: k as usize },
                ),
            ]
        } else {
            Seq::empty()
        })
    }
}

/// The index entries of all rounds before `k`, concatenated in round order.
pub open spec fn rounds_up_to(strands: Seq<Strand>, k: int) -> Seq<(u32, BlockId)>
    decreases k,
{
    if k <= 0 {
        Seq::empty()
    } else {
        rounds_up_to(strands, k - 1) + round_entries(strands, k - 1, strands.len() as int)
    }
}

/// The block count of the longest strand among the first `s`.
pub open spec fn max_blocks(strands: Seq<Strand>, s: int) -> int
    decreases s,
{
    if s <= 0 {
        0
    } else {
        let rest = max_blocks(strands, s - 1);
        if strands[s - 1]@.len() > rest {
            strands[s - 1]@.len() as int
        } else {
            rest
        }
    }
}

/// The shared index contents built over `strands`: insertion order grouped
/// by ordinal block position across all strands, not by strand.
pub open spec fn round_grouped(strands: Seq<Strand>) -> Seq<(u32, BlockId)> {
    rounds_up_to(strands, max_blocks(strands, strands.len() as int))
}

/// The resolver: one shared fuzzy fingerprint index built across all strands
/// in round-grouped insertion order.
pub struct Blocks {
    fuzzy_bit_map: FuzzyBitMap<BlockId>,
}

impl Blocks {
    /// The index entries, in insertion order.
    pub closed spec fn entries(&self) -> Seq<(u32, BlockId)> {
        self.fuzzy_bit_map.entries()
    }

    /// The inclusive Hamming-distance ceiling for candidacy.
    pub closed spec fn max_distance(&self) -> u32 {
        self.fuzzy_bit_map.max_distance()
    }

    /// The per-candidate acceptance probability used by `lookup`.
    pub closed spec fn match_chance(&self) -> MatchChance {
        self.fuzzy_bit_map.match_chance()
    }

    /// Builds the shared index: round `k` inserts, for every strand that has
    /// a block at ordinal position `k`, that block's fingerprint keyed to
    /// `BlockId { strand_id, block_index: k }`, strands visited in
    /// enumeration order within each round.
    pub fn new(max_distance: u32, match_chance: MatchChance, strands: &Vec<Strand>) -> (r: Blocks)
        ensures
            r.entries() == round_grouped(strands@),
            r.max_distance() == max_distance,
            r.match_chance() == match_chance,
    {
        let mut fuzzy_bit_map = FuzzyBitMap::<BlockId>::new(max_distance, match_chance);
        let mut max_len: usize = 0;
        let mut s: usize = 0;
        while s < strands.len()
            invariant
                s <= strands@.len(),
                max_len as int == max_blocks(strands@, s as int),
            decreases strands@.len() - s,
        {
            let strand = &strands[s];
            if strand.blocks.len() > max_len {
                max_len = strand.blocks.len();
            }
            s = s + 1;
        }
        let mut k: usize = 0;
        while k < max_len
            invariant
                k <= max_len,
                max_len as int == max_blocks(strands@, strands@.len() as int),
                fuzzy_bit_map.entries() == rounds_up_to(strands@, k as int),
                fuzzy_bit_map.max_distance() == max_distance,
                fuzzy_bit_map.match_chance() == match_chance,
            decreases max_len - k,
        {
            let mut s: usize = 0;
            while s < strands.len()
                invariant
                    s <= strands@.len(),
                    fuzzy_bit_map.entries() == rounds_up_to(strands@, k as int) + round_entries(
                        strands@,
                        k as int,
                        s as int,
                    ),
                    fuzzy_bit_map.max_distance() == max_distance,
                    fuzzy_bit_map.match_chance() == match_chance,
                decreases strands@.len() - s,
            {
                let strand = &strands[s];
                let ghost before = fuzzy_bit_map.entries();
                if k < strand.blocks.len() {
                    let block = &strand.blocks[k];
                    fuzzy_bit_map.insert(block.pattern.get(), BlockId::new(s, k));
                    proof {
                        assert(fuzzy_bit_map.entries() =~= before + seq![
                            (strands@[s as int]@[k as int].pattern@, BlockId {
                                strand_id: s,
                                block_index: k,
                            }),
                        ]);
                    }
                }
                proof {
                    assert(fuzzy_bit_map.entries() =~= rounds_up_to(strands@, k as int)
                        + round_entries(strands@, k as int, s + 1));
                }
                s = s + 1;
            }
            proof {
                assert(fuzzy_bit_map.entries() =~= rounds_up_to(strands@, k + 1));
            }
            k = k + 1;
        }
        Blocks { fuzzy_bit_map }
    }

    /// Resolves a call fingerprint from scan position `block_index`:
    /// delegates to the index's probabilistic `get`, so the ranked
    /// candidates are scanned in order and the first to survive its trial
    /// wins; `None` when none does — even when exact matches exist.
    pub fn lookup(
        &self,
        pattern: BlockPattern,
        block_index: usize,
        rng: &mut rand::rngs::SmallRng,
    ) -> (r: Option<BlockId>)
        ensures
            ({
                let cands = ranked_matches(
                    entries_from(self.entries(), block_index as int),
                    pattern@,
                    self.max_distance(),
                );
                &&& (match r {
                    Some(v) => cands.contains(v),
                    None => true,
                })
                &&& (cands.len() == 0 ==> r is None)
                &&& (self.match_chance() is Always && cands.len() > 0 ==> r == Some(cands[0]))
                &&& (self.match_chance() == MatchChance::Scaled(0) ==> r is None)
            }),
    {
        self.fuzzy_bit_map.get(pattern.get(), block_index, rng)
    }
}

} // verus!
