use fuzzyblocks::blockpattern::{decode_byte_backward, decode_byte_forward, BlockPattern};

#[test]
fn test_forward_zero_fill_at_end() {
    // decoding forward at index == data.len() yields 0 without advancing
    assert_eq!(decode_byte_forward(&[], 0), (0, 0));
    assert_eq!(decode_byte_forward(&[0x07], 1), (0, 1));
    assert_eq!(decode_byte_forward(&[0x07, 0x08], 5), (0, 5));
}

#[test]
fn test_backward_zero_at_start() {
    // decoding backward at index == 0 yields 0 without moving
    assert_eq!(decode_byte_backward(&[], 0), (0, 0));
    assert_eq!(decode_byte_backward(&[0x07], 0), (0, 0));
}

#[test]
fn test_pattern_pair_round_trip() {
    // a pattern byte followed by another pattern byte combines their low
    // nibbles and consumes both bytes
    assert_eq!(decode_byte_forward(&[0b1111_0001, 0b1111_0010], 0), (0b0001_0010, 2));
}

#[test]
fn test_literal_byte_forward() {
    assert_eq!(decode_byte_forward(&[0x42, 0x17], 0), (0x42, 1));
}

#[test]
fn test_plain_then_pattern_forward() {
    // a plain byte directly before a pattern byte reads as a nibble pair
    assert_eq!(decode_byte_forward(&[0x05, 0xf1], 0), (0x51, 2));
}

#[test]
fn test_lone_trailing_pattern_forward() {
    // a pattern byte with nothing after it supplies only the high nibble
    assert_eq!(decode_byte_forward(&[0xf5], 0), (0x50, 1));
}

#[test]
fn test_pattern_at_start_backward() {
    // a pattern byte at position 0 supplies only the low nibble
    assert_eq!(decode_byte_backward(&[0xf5], 1), (0x05, 0));
}

#[test]
fn test_backward_nibble_pair() {
    // a plain byte preceded by a pattern byte reads as a nibble pair
    assert_eq!(decode_byte_backward(&[0xf8, 0x01], 2), (0x81, 0));
}

#[test]
fn test_fingerprint_zero_fill() {
    // a one-byte block still decodes a full fingerprint, low bytes zero
    let pattern = BlockPattern::decode_forward(&[0xab], 0);
    assert_eq!(pattern.get(), 0xab00_0000);
}

#[test]
fn test_forward_backward_symmetry_literals() {
    // four literal bytes decode to the same fingerprint in both directions
    let data = [0x12, 0x34, 0x56, 0x78];
    let forward = BlockPattern::decode_forward(&data, 0);
    let backward = BlockPattern::decode_backward(&data, data.len());
    assert_eq!(forward, backward);
    assert_eq!(forward.get(), 0x1234_5678);
}

#[test]
fn test_asymmetric_region() {
    // a lone pattern byte closing a region is read differently from each
    // side; such regions fall outside the codec's symmetry guarantee
    let data = [0xf1, 0x05, 0xf2];
    let forward = BlockPattern::decode_forward(&data, 0);
    let backward = BlockPattern::decode_backward(&data, data.len());
    assert_eq!(forward.get(), 0x1520_0000);
    assert_eq!(backward.get(), 0x0000_0152);
}

#[test]
fn test_forward_backward_symmetry_nibble_pairs() {
    // four escaped nibble pairs decode to the same fingerprint in both
    // directions
    let data = [0xf5, 0x08, 0xfa, 0x0a, 0xf5, 0x05, 0xf8, 0x01];
    let forward = BlockPattern::decode_forward(&data, 0);
    let backward = BlockPattern::decode_backward(&data, data.len());
    assert_eq!(forward, backward);
    assert_eq!(forward.get(), 0x58aa_5581);
}
