//! The mathematical definition of the ED2K hashes.
//!
//! An input is cut into chunks of [`CHUNK_SIZE`] bytes, the last of which may
//! be shorter. A single chunk is hashed directly; with several chunks, the
//! chunk digests are concatenated and hashed once more. The two flavors only
//! differ in how many chunks they see in an input whose length is a positive
//! multiple of the chunk size: Red counts one more, empty, chunk at its end,
//! Blue does not.

use vstd::prelude::*;
use crate::md4_hasher::md4_digest;

verus! {

/// Number of bytes in a full chunk.
pub const CHUNK_SIZE: usize = 9_728_000;

/// Number of bytes in a chunk digest.
pub const DIGEST_SIZE: usize = 16;

/// The MD4 digest of `data`, as a sequence of 16 bytes.
pub open spec fn md4(data: Seq<u8>) -> Seq<u8> {
    md4_digest(data)@
}

/// Number of full chunks in `input`.
pub open spec fn full_chunks(input: Seq<u8>) -> nat {
    input.len() / (CHUNK_SIZE as nat)
}

/// The bytes of chunk number `i` of `input`, counting from 0. A chunk that
/// starts at or beyond the end of the input is empty.
pub open spec fn chunk_at(input: Seq<u8>, i: nat) -> Seq<u8> {
    let len = input.len() as int;
    let start = i * CHUNK_SIZE as int;
    let end = start + CHUNK_SIZE as int;
    input.subrange(
        if start <= len { start } else { len },
        if end <= len { end } else { len },
    )
}

/// The bytes after the last full chunk of `input`.
pub open spec fn partial_chunk(input: Seq<u8>) -> Seq<u8> {
    chunk_at(input, full_chunks(input))
}

/// The digests of the first `count` chunks of `input`, one after the other.
pub open spec fn chunk_digests(input: Seq<u8>, count: nat) -> Seq<u8>
    decreases count,
{
    if count == 0 {
        Seq::<u8>::empty()
    } else {
        chunk_digests(input, (count - 1) as nat) + md4(chunk_at(input, (count - 1) as nat))
    }
}

/// Digest number `i`, counting from 0, in a list of digests.
pub open spec fn digest_at(list: Seq<u8>, i: nat) -> Seq<u8> {
    list.subrange(i * DIGEST_SIZE as int, (i + 1) * DIGEST_SIZE as int)
}

/// The hash of `input` taken as `count` chunks.
pub open spec fn hash_of_chunks(input: Seq<u8>, count: nat) -> Seq<u8> {
    if count <= 1 {
        md4(chunk_at(input, 0))
    } else {
        md4(chunk_digests(input, count))
    }
}

/// Number of chunks that the Red flavor sees in `input`: the full chunks and
/// whatever follows them, even if nothing does.
pub open spec fn red_chunks(input: Seq<u8>) -> nat {
    full_chunks(input) + 1
}

/// Number of chunks that the Blue flavor sees in `input`: as few as cover it,
/// and one for the empty input.
pub open spec fn blue_chunks(input: Seq<u8>) -> nat {
    if input.len() == 0 {
        1
    } else {
        ((input.len() + CHUNK_SIZE - 1) / (CHUNK_SIZE as int)) as nat
    }
}

/// The Red hash of `input`.
pub open spec fn red_hash(input: Seq<u8>) -> Seq<u8> {
    hash_of_chunks(input, red_chunks(input))
}

/// The Blue hash of `input`.
pub open spec fn blue_hash(input: Seq<u8>) -> Seq<u8> {
    hash_of_chunks(input, blue_chunks(input))
}

/// The Red hash of `input` followed by its Blue hash.
pub open spec fn red_blue_hash(input: Seq<u8>) -> Seq<u8> {
    red_hash(input) + blue_hash(input)
}

/// A digest has 16 bytes.
pub proof fn lemma_md4_len(data: Seq<u8>)
    ensures
        md4(data).len() == DIGEST_SIZE,
{
    broadcast use vstd::array::array_len_matches_n;
}

/// The length of a chunk: full inside the input, the rest of the input
/// after the last full chunk, and nothing beyond.
pub proof fn lemma_chunk_at_len(input: Seq<u8>, i: nat)
    ensures
        i < full_chunks(input) ==> chunk_at(input, i).len() == CHUNK_SIZE,
        i == full_chunks(input) ==> chunk_at(input, i).len() == input.len() % (CHUNK_SIZE as nat),
        i > full_chunks(input) ==> chunk_at(input, i).len() == 0,
{
}

/// An input of at most one chunk is its own first chunk.
pub proof fn lemma_first_chunk_of_short_input(input: Seq<u8>)
    requires
        input.len() <= CHUNK_SIZE,
    ensures
        chunk_at(input, 0) == input,
{
    assert(chunk_at(input, 0) =~= input);
}

/// Appending to an input leaves the chunks that it had filled as they were.
pub proof fn lemma_append_keeps_full_chunk(input: Seq<u8>, more: Seq<u8>, i: nat)
    requires
        i < full_chunks(input),
    ensures
        chunk_at(input + more, i) == chunk_at(input, i),
{
    assert(chunk_at(input + more, i) =~= chunk_at(input, i));
}

/// Appending to an input leaves the digests of its full chunks as they were.
pub proof fn lemma_append_keeps_chunk_digests(input: Seq<u8>, more: Seq<u8>, count: nat)
    requires
        count <= full_chunks(input),
    ensures
        chunk_digests(input + more, count) == chunk_digests(input, count),
    decreases count,
{
    if count > 0 {
        lemma_append_keeps_chunk_digests(input, more, (count - 1) as nat);
        lemma_append_keeps_full_chunk(input, more, (count - 1) as nat);
    }
}

/// Bytes appended to an input go to its partial chunk, as far as they fit.
pub proof fn lemma_append_extends_partial_chunk(input: Seq<u8>, more: Seq<u8>)
    requires
        partial_chunk(input).len() + more.len() <= CHUNK_SIZE,
    ensures
        chunk_at(input + more, full_chunks(input)) == partial_chunk(input) + more,
{
    assert(chunk_at(input + more, full_chunks(input)) =~= partial_chunk(input) + more);
}

/// The chunk digests of `count` chunks take 16 bytes each.
pub proof fn lemma_chunk_digests_len(input: Seq<u8>, count: nat)
    ensures
        chunk_digests(input, count).len() == count * DIGEST_SIZE,
    decreases count,
{
    if count > 0 {
        lemma_chunk_digests_len(input, (count - 1) as nat);
        lemma_md4_len(chunk_at(input, (count - 1) as nat));
    }
}

} // verus!
