//! # ED2K hash functions
//!
//! The ED2K hash of some data is computed as follows:
//! - The data is split into chunks of 9500 KiB, where the last one can be smaller.
//! - Each chunk is hashed with the MD4 algorithm.
//! - If there is a single chunk, the result is its hash.
//! - Otherwise, the result is the MD4 hash of all concatenated chunk hashes.
//!
//! Two readings of this description are in use, which differ for data whose
//! size is a multiple of the chunk size:
//!
//! - Ed2k "Red": the older, "buggy" hash function. An extra chunk of
//!   0 bytes is included in its computation at the end.
//! - Ed2k "Blue": the newer, "fixed" hash function. Only the full chunks are
//!   included in its computation.
//! - Ed2k "RedBlue": the "Red" hash concatenated with the "Blue" hash,
//!   computed in one pass over the data.

use vstd::prelude::*;

pub mod md4_hasher;
pub mod model;
pub mod chunk_list;
pub mod implementation;
pub mod laws;

verus! {

/// The "official" ED2K hashing algorithm. Identical to Ed2kBlue.
pub type Ed2k = Ed2kBlue;

/// The old, "buggy" ED2K hashing algorithm.
pub type Ed2kRed = implementation::Ed2kImpl<implementation::Red>;

/// The new, "fixed" ED2K hashing algorithm.
pub type Ed2kBlue = implementation::Ed2kImpl<implementation::Blue>;

/// This computes the `Ed2kRed` hash concatenated with the `Ed2kBlue` hash.
pub type Ed2kRedBlue = implementation::Ed2kImpl<implementation::RedBlue>;

} // verus!
