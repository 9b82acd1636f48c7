//! The streaming hash state and its three ways to finish.

use vstd::prelude::*;
use crate::chunk_list::ChunkList;
use crate::md4_hasher::{
    md4_absorbed, md4_clone, md4_finalize_reset, md4_new, md4_reset, md4_update, Md4Hasher,
};
use crate::model::{
    blue_hash, chunk_at, chunk_digests, full_chunks, lemma_append_extends_partial_chunk,
    lemma_append_keeps_chunk_digests, lemma_append_keeps_full_chunk, lemma_md4_len, md4,
    partial_chunk, red_blue_hash, red_hash, CHUNK_SIZE,
};

verus! {

/// Internal hash state
pub struct Ed2kState {
    /// Hasher for the current chunk
    chunk_hasher: Md4Hasher,
    /// Length of the currently hashed bytes of the chunk
    chunk_len: usize,
    /// List of chunk hashes
    chunk_list: ChunkList,
    /// Everything absorbed since the state was created or last reset
    input: Ghost<Seq<u8>>,
}

impl View for Ed2kState {
    type V = Seq<u8>;

    /// The bytes absorbed since the state was created or last reset.
    closed spec fn view(&self) -> Seq<u8> {
        self.input@
    }
}

impl Ed2kState {
    /// The bytes of the chunk that is being filled.
    pub closed spec fn buffered(&self) -> Seq<u8> {
        md4_absorbed(self.chunk_hasher)
    }

    /// The number of bytes of the chunk that is being filled, as counted.
    pub closed spec fn buffered_len(&self) -> usize {
        self.chunk_len
    }

    /// The number of completed chunks, as counted. The counter stops at its
    /// largest value.
    pub closed spec fn completed(&self) -> u64 {
        self.chunk_list.counter()
    }

    /// The digest kept as that of the first completed chunk.
    pub closed spec fn first_digest(&self) -> Seq<u8> {
        self.chunk_list.first()@
    }

    /// The digests of the completed chunks that the running hash over them
    /// has taken in.
    pub closed spec fn listed(&self) -> Seq<u8> {
        self.chunk_list.listed()
    }

    /// The fields stand as they must after absorbing `input`.
    pub open spec fn holds(&self, input: Seq<u8>) -> bool {
        let count = full_chunks(input);
        &&& self.buffered() == partial_chunk(input)
        &&& self.buffered_len() == input.len() % (CHUNK_SIZE as nat)
        &&& self.listed() == chunk_digests(input, count)
        &&& self.completed() == if count < u64::MAX { count } else { u64::MAX as nat }
        &&& self.first_digest() == if count == 0 {
            Seq::new(16, |i: int| 0u8)
        } else {
            md4(chunk_at(input, 0))
        }
    }

    /// The state is that of a stream: its fields stand as they must after
    /// absorbing its view.
    pub open spec fn wf(&self) -> bool {
        self.holds(self@)
    }

    fn new() -> (state: Self)
        ensures
            state.wf(),
            state@ == Seq::<u8>::empty(),
    {
        let state = Ed2kState {
            chunk_hasher: md4_new(),
            chunk_len: 0,
            chunk_list: ChunkList::new(),
            input: Ghost(Seq::empty()),
        };
        assert(partial_chunk(Seq::<u8>::empty()) =~= Seq::<u8>::empty());
        state
    }

    /// Closes the chunk that is being filled: its digest joins the list, and
    /// the next chunk starts empty.
    fn hash_chunk(&mut self)
        ensures
            final(self).buffered() == Seq::<u8>::empty(),
            final(self).buffered_len() == 0,
            final(self).listed() == old(self).listed() + md4(old(self).buffered()),
            final(self).completed() == ChunkList::counted(old(self).completed()),
            final(self).first_digest() == if old(self).completed() == 0 {
                md4(old(self).buffered())
            } else {
                old(self).first_digest()
            },
            final(self)@ == old(self)@,
    {
        let hash = md4_finalize_reset(&mut self.chunk_hasher);
        self.chunk_len = 0;
        self.chunk_list.add_chunk(&hash);
    }

    /// Takes the state back to that of an empty stream.
    fn reset(&mut self)
        ensures
            final(self).wf(),
            final(self)@ == Seq::<u8>::empty(),
    {
        md4_reset(&mut self.chunk_hasher);
        self.chunk_len = 0;
        self.chunk_list.reset();
        self.input = Ghost(Seq::empty());
        assert(partial_chunk(Seq::<u8>::empty()) =~= Seq::<u8>::empty());
    }
}

impl Clone for Ed2kState {
    fn clone(&self) -> (copy: Self)
        ensures
            copy@ == self@,
            copy.wf() == self.wf(),
    {
        Ed2kState {
            chunk_hasher: md4_clone(&self.chunk_hasher),
            chunk_len: self.chunk_len,
            chunk_list: self.chunk_list.clone(),
            input: Ghost(self.input@),
        }
    }
}

/// Writes `digest` into the 16 bytes of `out` that start at `at`.
fn put_digest(out: &mut [u8], at: usize, digest: &[u8; 16])
    requires
        at + 16 <= old(out)@.len(),
    ensures
        final(out)@ == old(out)@.subrange(0, at as int) + digest@ + old(out)@.subrange(
            at + 16,
            old(out)@.len() as int,
        ),
{
    let len = out.len();
    let mut i: usize = 0;
    while i < 16
        invariant
            i <= 16,
            at + 16 <= len,
            len == old(out)@.len(),
            out@.len() == len,
            forall|j: int| 0 <= j < out@.len() ==> out@[j] == if at <= j < at + i {
                digest@[j - at]
            } else {
                old(out)@[j]
            },
        decreases 16 - i,
    {
        out[at + i] = digest[i];
        i += 1;
    }
    assert(out@ =~= old(out)@.subrange(0, at as int) + digest@ + old(out)@.subrange(
        at + 16,
        old(out)@.len() as int,
    ));
}

/// Abstraction over the ED2K hash flavor
pub trait Ed2kColor: Sized + Default {
    /// Size of the output hash in bytes
    spec fn spec_output_size() -> nat;

    /// The hash that the flavor gives to `input`
    spec fn hash(input: Seq<u8>) -> Seq<u8>;

    /// Every hash of the flavor has the flavor's size.
    proof fn lemma_hash_len(input: Seq<u8>)
        ensures
            Self::hash(input).len() == Self::spec_output_size(),
    ;

    /// Size of the output hash in bytes
    fn output_size() -> (size: usize)
        ensures
            size == Self::spec_output_size(),
    ;

    /// Flavor-specific finalization of the hash state: writes the hash of
    /// what the state has absorbed into `out` and leaves the state empty.
    fn finalize_ref(state: &mut Ed2kState, out: &mut [u8])
        requires
            old(state).wf(),
            old(out)@.len() == Self::spec_output_size(),
        ensures
            final(out)@ == Self::hash(old(state)@),
            final(state).wf(),
            final(state)@ == Seq::<u8>::empty(),
    ;
}

/// The old, "buggy" ED2K hashing algorithm: an input that ends on a chunk
/// boundary is followed by one more, empty, chunk.
#[derive(Debug, Clone)]
pub struct Red;

/// The new, "fixed" ED2K hashing algorithm: an input that ends on a chunk
/// boundary has no chunks but its full ones.
#[derive(Debug, Clone)]
pub struct Blue;

/// The `Red` hash concatenated with the `Blue` hash.
#[derive(Debug, Clone)]
pub struct RedBlue;

impl Default for Red {
    fn default() -> (color: Self)
        ensures
            color == Red,
    {
        Red
    }
}

impl Default for Blue {
    fn default() -> (color: Self)
        ensures
            color == Blue,
    {
        Blue
    }
}

impl Default for RedBlue {
    fn default() -> (color: Self)
        ensures
            color == RedBlue,
    {
        RedBlue
    }
}

impl Ed2kColor for Red {
    open spec fn spec_output_size() -> nat {
        16
    }

    open spec fn hash(input: Seq<u8>) -> Seq<u8> {
        red_hash(input)
    }

    proof fn lemma_hash_len(input: Seq<u8>) {
        lemma_md4_len(chunk_at(input, 0));
        lemma_md4_len(chunk_digests(input, crate::model::red_chunks(input)));
    }

    fn output_size() -> (size: usize) {
        16
    }

    fn finalize_ref(state: &mut Ed2kState, out: &mut [u8]) {
        let mut hash = [0u8; 16];
        if state.chunk_list.chunk_counter() == 0 {
            // simple case: input data was less than a chunk.
            // state: |##> |
            state.hash_chunk();
            state.chunk_list.copy_first_chunk(&mut hash);
        } else {
            // otherwise there are two cases:
            // - Input ends between two chunk boundaries.
            //   The remaining data in the current chunk still needs to be hashed.
            //   state: |####|..|##> |
            // - Input ends on a chunk boundary. All data is hashed already,
            //   but the hash of the empty byte sequence joins the list.
            //   state: |####|..|> |
            state.hash_chunk();
            state.chunk_list.copy_list_hash_reset(&mut hash);
        }
        put_digest(out, 0, &hash);
        state.reset();
    }
}

impl Ed2kColor for Blue {
    open spec fn spec_output_size() -> nat {
        16
    }

    open spec fn hash(input: Seq<u8>) -> Seq<u8> {
        blue_hash(input)
    }

    proof fn lemma_hash_len(input: Seq<u8>) {
        lemma_md4_len(chunk_at(input, 0));
        lemma_md4_len(chunk_digests(input, crate::model::blue_chunks(input)));
    }

    fn output_size() -> (size: usize) {
        16
    }

    fn finalize_ref(state: &mut Ed2kState, out: &mut [u8]) {
        let mut hash = [0u8; 16];
        if state.chunk_list.chunk_counter() == 0 {
            // simple case: input data was less than a chunk.
            // state: |##> |
            state.hash_chunk();
            state.chunk_list.copy_first_chunk(&mut hash);
        } else if state.chunk_len != 0 {
            // common case: input data was more than a chunk, and
            // ends between two chunk boundaries.
            // state: |####|..|##> |
            state.hash_chunk();
            state.chunk_list.copy_list_hash_reset(&mut hash);
        } else if state.chunk_list.chunk_counter() == 1 {
            // rare case: input data is a multiple of the chunk size
            // state: |####|..|>   |
            state.chunk_list.copy_first_chunk(&mut hash);
        } else {
            state.chunk_list.copy_list_hash_reset(&mut hash);
        }
        put_digest(out, 0, &hash);
        state.reset();
    }
}

impl Ed2kColor for RedBlue {
    open spec fn spec_output_size() -> nat {
        32
    }

    open spec fn hash(input: Seq<u8>) -> Seq<u8> {
        red_blue_hash(input)
    }

    proof fn lemma_hash_len(input: Seq<u8>) {
        Red::lemma_hash_len(input);
        Blue::lemma_hash_len(input);
    }

    fn output_size() -> (size: usize) {
        32
    }

    fn finalize_ref(state: &mut Ed2kState, out: &mut [u8]) {
        let mut red_out = [0u8; 16];
        let mut blue_out = [0u8; 16];
        if state.chunk_list.chunk_counter() == 0 {
            // simple case: input data was less than a chunk.
            // state: |##> |
            state.hash_chunk();
            state.chunk_list.copy_first_chunk(&mut red_out);
            blue_out = red_out;
        } else if state.chunk_len != 0 {
            // common case: input data was more than a chunk, and
            // ends between two chunk boundaries.
            // state: |####|..|##> |
            state.hash_chunk();
            state.chunk_list.copy_list_hash_reset(&mut red_out);
            blue_out = red_out;
        } else {
            // rare case: input data is a multiple of the chunk size
            // state: |####|..|>   |
            // for blue, the hash is based on the chunk list alone
            if state.chunk_list.chunk_counter() == 1 {
                state.chunk_list.copy_first_chunk(&mut blue_out);
            } else {
                // the list state is still needed for red below,
                // so blue works on a cheap clone.
                let mut list = state.chunk_list.clone();
                list.copy_list_hash_reset(&mut blue_out);
            }
            // for red, the hash of the empty byte sequence joins the
            // chunk list. The current chunk is empty at this point.
            state.hash_chunk();
            state.chunk_list.copy_list_hash_reset(&mut red_out);
        }
        put_digest(out, 0, &red_out);
        put_digest(out, 16, &blue_out);
        state.reset();
    }
}

/// ED2K hash algorithm implementation: a hasher that absorbs bytes in any
/// number of calls and then gives the hash of all of them.
///
/// The concrete ED2K hash this produces depends on the type parameter `C`.
pub struct Ed2kImpl<C> {
    state: Ed2kState,
    _color: C,
}

impl<C: Ed2kColor> View for Ed2kImpl<C> {
    type V = Seq<u8>;

    /// The bytes absorbed since the hasher was created or last reset.
    open spec fn view(&self) -> Seq<u8> {
        self.state()@
    }
}

impl<C: Ed2kColor> Default for Ed2kImpl<C> {
    fn default() -> (hasher: Self)
        ensures
            hasher.wf(),
            hasher@ == Seq::<u8>::empty(),
    {
        Self { state: Ed2kState::new(), _color: Default::default() }
    }
}

impl<C: Ed2kColor> Ed2kImpl<C> {
    /// The state of the stream that the hasher is absorbing.
    pub closed spec fn state(&self) -> Ed2kState {
        self.state
    }

    /// The hasher's state is that of a stream.
    pub open spec fn wf(&self) -> bool {
        self.state().wf()
    }

    /// A hasher that has absorbed nothing.
    pub fn new() -> (hasher: Self)
        ensures
            hasher.wf(),
            hasher@ == Seq::<u8>::empty(),
    {
        Default::default()
    }

    /// Size of the hash in bytes.
    pub fn output_size() -> (size: usize)
        ensures
            size == C::spec_output_size(),
    {
        C::output_size()
    }

    /// Absorbs `data`. However a stream of bytes is cut into calls, the
    /// hasher has absorbed the stream.
    pub fn update(&mut self, data: &[u8])
        requires
            old(self).wf(),
        ensures
            final(self).wf(),
            final(self)@ == old(self)@ + data@,
    {
        let mut pos: usize = 0;
        while pos < data.len()
            invariant
                pos <= data.len(),
                self.state.wf(),
                self.state@ == old(self)@ + data@.subrange(0, pos as int),
            decreases data.len() - pos,
        {
            let free = CHUNK_SIZE - self.state.chunk_len;
            let rest = data.len() - pos;
            let data_write_len = if rest < free { rest } else { free };
            let data_write = vstd::slice::slice_subrange(data, pos, pos + data_write_len);
            md4_update(&mut self.state.chunk_hasher, data_write);
            self.state.chunk_len += data_write_len;
            proof {
                let before = self.state.input@;
                let after = before + data_write@;
                lemma_append_extends_partial_chunk(before, data_write@);
                lemma_append_keeps_chunk_digests(before, data_write@, full_chunks(before));
                if full_chunks(before) > 0 {
                    lemma_append_keeps_full_chunk(before, data_write@, 0);
                }
                assert(after =~= old(self)@ + data@.subrange(0, pos + data_write_len));
                self.state.input@ = after;
            }
            pos += data_write_len;
            if self.state.chunk_len == CHUNK_SIZE {
                self.state.hash_chunk();
                proof {
                    let input = self.state.input@;
                    assert(partial_chunk(input) =~= Seq::<u8>::empty());
                }
            }
        }
        assert(data@.subrange(0, data@.len() as int) =~= data@);
    }

    /// Writes the hash of what the hasher has absorbed into `out`.
    pub fn finalize_into(self, out: &mut [u8])
        requires
            self.wf(),
            old(out)@.len() == C::spec_output_size(),
        ensures
            final(out)@ == C::hash(self@),
    {
        let mut hasher = self;
        C::finalize_ref(&mut hasher.state, out)
    }

    /// Takes the hasher back to having absorbed nothing.
    pub fn reset(&mut self)
        ensures
            final(self).wf(),
            final(self)@ == Seq::<u8>::empty(),
    {
        self.state.reset();
    }

    /// Writes the hash of what the hasher has absorbed into `out`, and takes
    /// the hasher back to having absorbed nothing.
    pub fn finalize_into_reset(&mut self, out: &mut [u8])
        requires
            old(self).wf(),
            old(out)@.len() == C::spec_output_size(),
        ensures
            final(out)@ == C::hash(old(self)@),
            final(self).wf(),
            final(self)@ == Seq::<u8>::empty(),
    {
        C::finalize_ref(&mut self.state, out)
    }

    /// The hash of what the hasher has absorbed.
    pub fn finalize(self) -> (hash: Vec<u8>)
        requires
            self.wf(),
        ensures
            hash@ == C::hash(self@),
    {
        let mut hash = vec![0u8; C::output_size()];
        self.finalize_into(hash.as_mut_slice());
        hash
    }

    /// The hash of what the hasher has absorbed. The hasher is taken back to
    /// having absorbed nothing, ready for the next stream.
    pub fn finalize_reset(&mut self) -> (hash: Vec<u8>)
        requires
            old(self).wf(),
        ensures
            hash@ == C::hash(old(self)@),
            final(self).wf(),
            final(self)@ == Seq::<u8>::empty(),
    {
        let mut hash = vec![0u8; C::output_size()];
        self.finalize_into_reset(hash.as_mut_slice());
        hash
    }

    /// The hash of `data`.
    pub fn digest(data: &[u8]) -> (hash: Vec<u8>)
        ensures
            hash@ == C::hash(data@),
    {
        let mut hasher = Self::new();
        hasher.update(data);
        assert(Seq::<u8>::empty() + data@ =~= data@);
        hasher.finalize()
    }
}

impl<C: Ed2kColor + Clone> Clone for Ed2kImpl<C> {
    fn clone(&self) -> (copy: Self)
        ensures
            copy@ == self@,
            copy.wf() == self.wf(),
    {
        Self { state: self.state.clone(), _color: self._color.clone() }
    }
}

} // verus!
