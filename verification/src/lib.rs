//! Byte-coded blocks resolved by approximate fingerprint matching.
//!
//! A raw byte stream (a *strand*) is split at zero delimiters into *blocks*,
//! each carrying a 32-bit fingerprint decoded by a symmetric forward/backward
//! pattern codec. Fingerprints of many strands are gathered, round by round,
//! into a fuzzy index that answers Hamming-distance-bounded, probabilistically
//! ranked lookups.

pub mod blockid;
pub mod blockpattern;
pub mod executor;
pub mod fuzzy;
pub mod instruction;
pub mod structure;
