use fuzzyblocks::blockid::BlockId;
use fuzzyblocks::blockpattern::BlockPattern;
use fuzzyblocks::fuzzy::MatchChance;
use fuzzyblocks::structure::{Blocks, Strand};
use rand::rngs::SmallRng;
use rand::SeedableRng;

#[test]
fn test_new() {
    let strands = vec![Strand::from_bytes(&[1, 0, 1])];
    let blocks = Blocks::new(0, MatchChance::Scaled(1u64 << 63), &strands);
    let mut rng = SmallRng::from_seed([0; 32]);
    assert_eq!(blocks.lookup(BlockPattern::new(0b1111), 0, &mut rng), None);
}

#[test]
fn test_lookup_exact_block() {
    // a one-block strand: the block's fingerprint is its first byte, shifted
    // into the most significant position
    let strands = vec![Strand::from_bytes(&[2])];
    let blocks = Blocks::new(0, MatchChance::Always, &strands);
    let mut rng = SmallRng::from_seed([0; 32]);
    assert_eq!(
        blocks.lookup(BlockPattern::new(0x0200_0000), 0, &mut rng),
        Some(BlockId::new(0, 0))
    );
}

#[test]
fn test_empty_strand_has_one_zero_block() {
    // an empty byte buffer still yields one block, with fingerprint zero
    let strands = vec![Strand::from_bytes(&[])];
    let blocks = Blocks::new(0, MatchChance::Always, &strands);
    let mut rng = SmallRng::from_seed([0; 32]);
    assert_eq!(blocks.lookup(BlockPattern::new(0), 0, &mut rng), Some(BlockId::new(0, 0)));
}

#[test]
fn test_trailing_delimiter_yields_empty_block() {
    // "1 0" splits into the block [1] and an empty block after the delimiter
    let strands = vec![Strand::from_bytes(&[1, 0])];
    let blocks = Blocks::new(0, MatchChance::Always, &strands);
    let mut rng = SmallRng::from_seed([0; 32]);
    assert_eq!(blocks.lookup(BlockPattern::new(0), 0, &mut rng), Some(BlockId::new(0, 1)));
    assert_eq!(
        blocks.lookup(BlockPattern::new(0x0100_0000), 0, &mut rng),
        Some(BlockId::new(0, 0))
    );
}

#[test]
fn test_round_grouped_unequal_strands() {
    // strand 0 has two blocks, strand 1 has one: insertion order is
    // round-grouped, so both position-0 blocks precede strand 0's position-1
    // block
    let strands = vec![Strand::from_bytes(&[1, 0, 2]), Strand::from_bytes(&[3])];
    let blocks = Blocks::new(0, MatchChance::Always, &strands);
    let mut rng = SmallRng::from_seed([0; 32]);
    // all three blocks resolve from position 0 by exact fingerprint
    assert_eq!(
        blocks.lookup(BlockPattern::new(0x0100_0000), 0, &mut rng),
        Some(BlockId::new(0, 0))
    );
    assert_eq!(
        blocks.lookup(BlockPattern::new(0x0300_0000), 0, &mut rng),
        Some(BlockId::new(1, 0))
    );
    assert_eq!(
        blocks.lookup(BlockPattern::new(0x0200_0000), 0, &mut rng),
        Some(BlockId::new(0, 1))
    );
    // from a start position equal to the first strand's block count, every
    // position-0 block is already out of reach, while the position-1 block
    // still resolves: position-0 entries all precede it
    assert_eq!(blocks.lookup(BlockPattern::new(0x0100_0000), 2, &mut rng), None);
    assert_eq!(blocks.lookup(BlockPattern::new(0x0300_0000), 2, &mut rng), None);
    assert_eq!(
        blocks.lookup(BlockPattern::new(0x0200_0000), 2, &mut rng),
        Some(BlockId::new(0, 1))
    );
    // from position 1, strand 1's position-0 block is still visible
    assert_eq!(
        blocks.lookup(BlockPattern::new(0x0300_0000), 1, &mut rng),
        Some(BlockId::new(1, 0))
    );
}
