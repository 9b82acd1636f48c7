//! What holds of the hashes and of the hasher for every input.

use vstd::prelude::*;
use crate::implementation::{Ed2kColor, Ed2kImpl, Ed2kState};
use crate::model::{
    blue_chunks, blue_hash, chunk_at, chunk_digests, digest_at, full_chunks, lemma_chunk_at_len,
    lemma_chunk_digests_len, lemma_first_chunk_of_short_input, lemma_md4_len, md4, partial_chunk,
    red_blue_hash, red_chunks, red_hash, CHUNK_SIZE,
};

verus! {

/// What a hasher that has absorbed `start` has absorbed after one `update`
/// with each of `parts`, in their order.
pub open spec fn absorb_all(start: Seq<u8>, parts: Seq<Seq<u8>>) -> Seq<u8>
    decreases parts.len(),
{
    if parts.len() == 0 {
        start
    } else {
        absorb_all(start + parts.first(), parts.drop_first())
    }
}

/// Absorbing a stream part by part adds the whole stream to what was
/// absorbed before, however the stream is cut into parts.
pub proof fn lemma_absorb_all(start: Seq<u8>, parts: Seq<Seq<u8>>)
    ensures
        absorb_all(start, parts) == start + parts.flatten(),
    decreases parts.len(),
{
    if parts.len() == 0 {
        assert(start + parts.flatten() =~= start);
    } else {
        lemma_absorb_all(start + parts.first(), parts.drop_first());
        assert((start + parts.first()) + parts.drop_first().flatten() =~= start + parts.flatten());
    }
}

/// Split-invariance: a fresh hasher that absorbs the parts of a stream one
/// by one gives the hash of the stream, however the stream is cut into
/// parts.
pub proof fn lemma_split_invariance<C: Ed2kColor>(parts: Seq<Seq<u8>>)
    ensures
        C::hash(absorb_all(Seq::<u8>::empty(), parts)) == C::hash(parts.flatten()),
{
    lemma_absorb_all(Seq::<u8>::empty(), parts);
    assert(Seq::<u8>::empty() + parts.flatten() =~= parts.flatten());
}

/// The state of a stream is determined by the bytes absorbed: two states
/// that have absorbed the same bytes, in whatever calls, agree in every
/// part.
pub proof fn lemma_state_determined_by_input(state: Ed2kState, other: Ed2kState)
    requires
        state.wf(),
        other.wf(),
        state@ == other@,
    ensures
        state.buffered() == other.buffered(),
        state.buffered_len() == other.buffered_len(),
        state.completed() == other.completed(),
        state.first_digest() == other.first_digest(),
        state.listed() == other.listed(),
{
}

/// The chunk that is being filled holds what follows the last full chunk
/// of the stream: as many bytes as the length of the stream leaves when
/// divided by the chunk size, which is less than a chunk.
pub proof fn lemma_buffered_bytes(state: Ed2kState)
    requires
        state.wf(),
    ensures
        state.buffered() == state@.skip(full_chunks(state@) * CHUNK_SIZE),
        state.buffered().len() == state@.len() % (CHUNK_SIZE as nat),
        state.buffered_len() == state.buffered().len(),
        state.buffered_len() < CHUNK_SIZE,
{
    lemma_chunk_at_len(state@, full_chunks(state@));
    assert(partial_chunk(state@) =~= state@.skip(full_chunks(state@) * CHUNK_SIZE));
}

/// The digest of chunk number `i` stands in the list of the digests of the
/// first `count` chunks at 16 times `i`.
pub proof fn lemma_chunk_digest_in_list(input: Seq<u8>, count: nat, i: nat)
    requires
        i < count,
    ensures
        chunk_digests(input, count).len() == 16 * count,
        digest_at(chunk_digests(input, count), i) == md4(chunk_at(input, i)),
    decreases count,
{
    let before = chunk_digests(input, (count - 1) as nat);
    let last = md4(chunk_at(input, (count - 1) as nat));
    lemma_chunk_digests_len(input, (count - 1) as nat);
    lemma_md4_len(chunk_at(input, (count - 1) as nat));
    if i + 1 < count {
        lemma_chunk_digest_in_list(input, (count - 1) as nat, i);
        assert(digest_at(before + last, i) =~= digest_at(before, i));
    } else {
        assert(digest_at(before + last, i) =~= last);
    }
}

/// The running hash over the chunk list has taken in exactly one digest for
/// each completed chunk of the stream, in the order of the chunks, and the
/// digest kept as the first is that of the first chunk.
pub proof fn lemma_listed_digests(state: Ed2kState, i: nat)
    requires
        state.wf(),
        i < full_chunks(state@),
    ensures
        state.listed().len() == 16 * full_chunks(state@),
        digest_at(state.listed(), i) == md4(chunk_at(state@, i)),
        state.first_digest() == md4(chunk_at(state@, 0)),
        state.first_digest() == digest_at(state.listed(), 0),
        state.completed() >= 1,
{
    lemma_chunk_digest_in_list(state@, full_chunks(state@), i);
    lemma_chunk_digest_in_list(state@, full_chunks(state@), 0);
}

/// A stream that ends on a chunk boundary leaves a state unlike that of a
/// stream that has not begun: nothing is buffered in either, but the first
/// has completed chunks.
pub proof fn lemma_boundary_is_not_the_start(state: Ed2kState)
    requires
        state.wf(),
    ensures
        state@.len() == 0 ==> state.completed() == 0 && state.buffered_len() == 0,
        state@.len() > 0 && state@.len() % (CHUNK_SIZE as nat) == 0 ==> state.completed() >= 1
            && state.buffered_len() == 0,
        state.completed() == 0 <==> state@.len() < CHUNK_SIZE,
{
}

/// Reset correctness: a hasher that has been reset, by `reset` or at the
/// end of `finalize_reset`, and then absorbs the parts of a stream gives the
/// hash of that stream, whatever it had absorbed before.
pub proof fn lemma_reset_correctness<C: Ed2kColor>(after_reset: Ed2kImpl<C>, parts: Seq<Seq<u8>>)
    requires
        after_reset.wf(),
        after_reset@ == Seq::<u8>::empty(),
    ensures
        C::hash(absorb_all(after_reset@, parts)) == C::hash(parts.flatten()),
{
    lemma_split_invariance::<C>(parts);
}

/// Sub-chunk agreement: on an input shorter than a chunk all flavors give
/// the digest of the input, and the combined hash holds it twice.
pub proof fn lemma_sub_chunk_agreement(input: Seq<u8>)
    requires
        input.len() < CHUNK_SIZE,
    ensures
        red_hash(input) == md4(input),
        blue_hash(input) == md4(input),
        red_blue_hash(input).len() == 32,
        red_blue_hash(input).subrange(0, 16) == md4(input),
        red_blue_hash(input).subrange(16, 32) == md4(input),
{
    lemma_first_chunk_of_short_input(input);
    lemma_md4_len(input);
    assert(red_blue_hash(input).subrange(0, 16) =~= md4(input));
    assert(red_blue_hash(input).subrange(16, 32) =~= md4(input));
}

/// The combined hash is the Red hash in its first 16 bytes and the Blue hash
/// in its last 16 bytes.
pub proof fn lemma_red_blue_halves(input: Seq<u8>)
    ensures
        red_hash(input).len() == 16,
        blue_hash(input).len() == 16,
        red_blue_hash(input).len() == 32,
        red_blue_hash(input).subrange(0, 16) == red_hash(input),
        red_blue_hash(input).subrange(16, 32) == blue_hash(input),
{
    lemma_md4_len(chunk_at(input, 0));
    lemma_md4_len(chunk_digests(input, red_chunks(input)));
    lemma_md4_len(chunk_digests(input, blue_chunks(input)));
    assert(red_blue_hash(input).subrange(0, 16) =~= red_hash(input));
    assert(red_blue_hash(input).subrange(16, 32) =~= blue_hash(input));
}

/// The flavors agree on every input that does not end on a chunk boundary,
/// and on the empty input.
pub proof fn lemma_agreement_off_boundary(input: Seq<u8>)
    requires
        input.len() == 0 || input.len() % (CHUNK_SIZE as nat) != 0,
    ensures
        red_hash(input) == blue_hash(input),
{
}

/// Trailing partial data: on an input of one or more full chunks and a
/// partial chunk after them, Red and Blue both hash the digests of the full
/// chunks followed by the digest of the partial chunk.
pub proof fn lemma_trailing_partial_chunk(input: Seq<u8>)
    requires
        input.len() > CHUNK_SIZE,
        input.len() % (CHUNK_SIZE as nat) != 0,
    ensures
        red_hash(input) == md4(
            chunk_digests(input, full_chunks(input)) + md4(partial_chunk(input)),
        ),
        blue_hash(input) == red_hash(input),
        red_blue_hash(input) == red_hash(input) + red_hash(input),
{
}

/// Boundary divergence: on an input of two or more full chunks and nothing
/// more, Blue hashes the digests of the full chunks, and Red hashes them
/// followed by the digest of the empty chunk. The two lists differ.
pub proof fn lemma_boundary_divergence(input: Seq<u8>)
    requires
        input.len() > CHUNK_SIZE,
        input.len() % (CHUNK_SIZE as nat) == 0,
    ensures
        blue_hash(input) == md4(chunk_digests(input, full_chunks(input))),
        red_hash(input) == md4(
            chunk_digests(input, full_chunks(input)) + md4(Seq::<u8>::empty()),
        ),
        chunk_digests(input, full_chunks(input)) + md4(Seq::<u8>::empty()) != chunk_digests(
            input,
            full_chunks(input),
        ),
        red_blue_hash(input) == red_hash(input) + blue_hash(input),
{
    let count = full_chunks(input);
    assert(chunk_at(input, count) =~= Seq::<u8>::empty());
    lemma_md4_len(Seq::<u8>::empty());
    assert((chunk_digests(input, count) + md4(Seq::<u8>::empty())).len() == chunk_digests(
        input,
        count,
    ).len() + 16);
}

/// Single-exact-chunk agreement: on an input of exactly one full chunk,
/// Blue gives the digest of the input, and Red hashes that digest followed
/// by the digest of the empty chunk.
pub proof fn lemma_single_exact_chunk(input: Seq<u8>)
    requires
        input.len() == CHUNK_SIZE,
    ensures
        blue_hash(input) == md4(input),
        red_hash(input) == md4(md4(input) + md4(Seq::<u8>::empty())),
        md4(input) + md4(Seq::<u8>::empty()) != md4(input),
{
    lemma_first_chunk_of_short_input(input);
    assert(chunk_at(input, 1) =~= Seq::<u8>::empty());
    assert(chunk_digests(input, 2) =~= md4(input) + md4(Seq::<u8>::empty())) by {
        reveal_with_fuel(chunk_digests, 3);
    }
    lemma_md4_len(Seq::<u8>::empty());
    lemma_md4_len(input);
    assert((md4(input) + md4(Seq::<u8>::empty())).len() == 32);
}

} // verus!
