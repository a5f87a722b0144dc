use fuzzyblocks::fuzzy::{hamming_distance, FuzzyBitMap, MatchChance};
use rand::rngs::SmallRng;
use rand::SeedableRng;

#[test]
fn test_matching_with_max_distance_0() {
    let mut fuzzy_bitmap = FuzzyBitMap::new(0, MatchChance::Scaled(1u64 << 63));
    fuzzy_bitmap.insert(0b0000, 0);
    fuzzy_bitmap.insert(0b0001, 1);
    fuzzy_bitmap.insert(0b0010, 2);
    fuzzy_bitmap.insert(0b0011, 3);
    fuzzy_bitmap.insert(0b0100, 4);
    fuzzy_bitmap.insert(0b0101, 5);
    fuzzy_bitmap.insert(0b0110, 6);
    fuzzy_bitmap.insert(0b0111, 7);
    // now look for matches
    let matches = fuzzy_bitmap.matching(0b0000, 0);
    assert_eq!(matches, vec![0b0000]);
    // how about we look from index 1?
    let matches = fuzzy_bitmap.matching(0b0000, 1);
    assert_eq!(matches, Vec::<u32>::new());
}

#[test]
fn test_matching_with_max_distance_1() {
    let mut fuzzy_bitmap = FuzzyBitMap::new(1, MatchChance::Scaled(1u64 << 63));
    fuzzy_bitmap.insert(0b0000, 0);
    fuzzy_bitmap.insert(0b0001, 1);
    fuzzy_bitmap.insert(0b0010, 2);
    fuzzy_bitmap.insert(0b0011, 3);
    fuzzy_bitmap.insert(0b0100, 4);
    fuzzy_bitmap.insert(0b0101, 5);
    fuzzy_bitmap.insert(0b0110, 6);
    fuzzy_bitmap.insert(0b0111, 7);
    // now look for matches
    let matches = fuzzy_bitmap.matching(0b0000, 0);
    assert_eq!(matches, vec![0b0000, 0b0001, 0b0010, 0b0100]);
    // how about we look from index 1?
    let matches = fuzzy_bitmap.matching(0b0000, 1);
    assert_eq!(matches, vec![0b0001, 0b0010, 0b0100]);
}

#[test]
fn test_matching_from_index_0_with_max_distance_2() {
    let mut fuzzy_bitmap = FuzzyBitMap::new(2, MatchChance::Scaled(1u64 << 63));
    fuzzy_bitmap.insert(0b0000, 0);
    fuzzy_bitmap.insert(0b0001, 1);
    fuzzy_bitmap.insert(0b0010, 2);
    fuzzy_bitmap.insert(0b0011, 3);
    fuzzy_bitmap.insert(0b0100, 4);
    fuzzy_bitmap.insert(0b0101, 5);
    fuzzy_bitmap.insert(0b0110, 6);
    fuzzy_bitmap.insert(0b0111, 7);
    // now look for matches
    let matches = fuzzy_bitmap.matching(0b0000, 0);
    assert_eq!(matches, vec![0b0000, 0b0001, 0b0010, 0b0100, 0b0011, 0b0101, 0b0110]);
}

#[test]
fn test_no_match_with_distance_2() {
    let mut fuzzy_bitmap = FuzzyBitMap::new(2, MatchChance::Scaled(1u64 << 63));
    fuzzy_bitmap.insert(0b1101, 1);
    fuzzy_bitmap.insert(0b1111, 2);
    // now look for matches
    let matches = fuzzy_bitmap.matching(0b0000, 0);
    assert_eq!(matches, Vec::<u32>::new());
}

#[test]
fn test_get_no_match_with_distance_2() {
    let mut fuzzy_bitmap = FuzzyBitMap::new(2, MatchChance::Scaled(1u64 << 63));
    fuzzy_bitmap.insert(0b1101, 1);
    fuzzy_bitmap.insert(0b1111, 2);
    let mut rng = SmallRng::from_seed([0; 32]);
    let matches = fuzzy_bitmap.get(0b0000, 0, &mut rng);
    assert_eq!(matches, None);
}

#[test]
fn test_get_match_with_distance_1() {
    let mut fuzzy_bitmap = FuzzyBitMap::new(1, MatchChance::Scaled(1u64 << 63));
    fuzzy_bitmap.insert(0b0000, 0);
    fuzzy_bitmap.insert(0b0001, 1);
    fuzzy_bitmap.insert(0b0010, 2);
    fuzzy_bitmap.insert(0b0011, 3);
    fuzzy_bitmap.insert(0b0100, 4);
    fuzzy_bitmap.insert(0b0101, 5);
    fuzzy_bitmap.insert(0b0110, 6);
    fuzzy_bitmap.insert(0b0111, 7);
    let mut rng = SmallRng::from_seed([0; 32]);
    let matches = fuzzy_bitmap.get(0b0000, 0, &mut rng);
    assert_eq!(matches, Some(0b0000));
    let matches = fuzzy_bitmap.get(0b0000, 0, &mut rng);
    assert_eq!(matches, Some(0b0000));
    let matches = fuzzy_bitmap.get(0b0000, 0, &mut rng);
    assert_eq!(matches, Some(0b0000));
    let matches = fuzzy_bitmap.get(0b0001, 0, &mut rng);
    assert_eq!(matches, Some(0b0001));
}

#[test]
fn test_hamming_distance_values() {
    assert_eq!(hamming_distance(0, 0), 0);
    assert_eq!(hamming_distance(0b1010, 0b0101), 4);
    assert_eq!(hamming_distance(0b1111, 0b1011), 1);
    assert_eq!(hamming_distance(u32::MAX, 0), 32);
    assert_eq!(hamming_distance(0x8000_0000, 0), 1);
}

#[test]
fn test_get_always_returns_closest() {
    // with certain acceptance, get is deterministic and picks the lowest
    // distance, ties broken by insertion order
    let mut fuzzy_bitmap = FuzzyBitMap::new(2, MatchChance::Always);
    fuzzy_bitmap.insert(0b1101, 1);
    fuzzy_bitmap.insert(0b1111, 2);
    fuzzy_bitmap.insert(0b1100, 3);
    let mut rng = SmallRng::from_seed([0; 32]);
    assert_eq!(fuzzy_bitmap.get(0b1100, 0, &mut rng), Some(3));
    assert_eq!(fuzzy_bitmap.get(0b1111, 0, &mut rng), Some(2));
    assert_eq!(fuzzy_bitmap.get(0b1110, 0, &mut rng), Some(2));
}

#[test]
fn test_get_scaled_zero_never_matches() {
    // a zero acceptance chance returns no match even on an exact hit
    let mut fuzzy_bitmap = FuzzyBitMap::new(2, MatchChance::Scaled(0));
    fuzzy_bitmap.insert(0b1101, 1);
    let mut rng = SmallRng::from_seed([0; 32]);
    assert_eq!(fuzzy_bitmap.get(0b1101, 0, &mut rng), None);
}

#[test]
fn test_get_seed_reproducible() {
    // the same seed reproduces the identical sequence of outcomes
    let mut fuzzy_bitmap = FuzzyBitMap::new(3, MatchChance::Scaled(1u64 << 63));
    for i in 0..8u32 {
        fuzzy_bitmap.insert(i, i);
    }
    let mut outcomes = Vec::new();
    let mut rng = SmallRng::from_seed([7; 32]);
    for i in 0..8u32 {
        outcomes.push(fuzzy_bitmap.get(i, 0, &mut rng));
    }
    let mut outcomes_again = Vec::new();
    let mut rng = SmallRng::from_seed([7; 32]);
    for i in 0..8u32 {
        outcomes_again.push(fuzzy_bitmap.get(i, 0, &mut rng));
    }
    assert_eq!(outcomes, outcomes_again);
}

#[test]
fn test_later_position_excludes_earlier_entries() {
    // an exact match inserted early is invisible to a scan that starts after
    // it
    let mut fuzzy_bitmap = FuzzyBitMap::new(0, MatchChance::Always);
    fuzzy_bitmap.insert(0b1010, 10);
    fuzzy_bitmap.insert(0b0101, 20);
    let mut rng = SmallRng::from_seed([0; 32]);
    assert_eq!(fuzzy_bitmap.get(0b1010, 0, &mut rng), Some(10));
    assert_eq!(fuzzy_bitmap.get(0b1010, 1, &mut rng), None);
    // a start position beyond the stored count is an empty match set
    assert_eq!(fuzzy_bitmap.matching(0b1010, 5), Vec::<i32>::new());
}
