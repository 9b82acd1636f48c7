//! The list of the chunks that a stream has completed.

use vstd::prelude::*;
use crate::md4_hasher::{
    md4_absorbed, md4_clone, md4_finalize_reset, md4_new, md4_reset, md4_update, Md4Hasher,
};
use crate::model::md4;

verus! {

/// The digests of the chunks completed so far, kept as a running hash over
/// them, together with their number and the first of them.
pub struct ChunkList {
    hasher: Md4Hasher,
    first_chunk: [u8; 16],
    chunk_counter: u64,
}

impl ChunkList {
    /// The chunk digests that the list has taken in, one after the other.
    pub closed spec fn listed(&self) -> Seq<u8> {
        md4_absorbed(self.hasher)
    }

    /// The number of chunks counted.
    pub closed spec fn counter(&self) -> u64 {
        self.chunk_counter
    }

    /// The digest kept as that of the first chunk.
    pub closed spec fn first(&self) -> [u8; 16] {
        self.first_chunk
    }

    /// The value of a counter that stands at `counter` after one more chunk.
    /// The counter stops at its largest value: all that is ever asked of it is
    /// whether it is 0, 1 or more.
    pub open spec fn counted(counter: u64) -> u64 {
        if counter < u64::MAX {
            (counter + 1) as u64
        } else {
            counter
        }
    }

    /// A list without chunks.
    pub fn new() -> (list: Self)
        ensures
            list.listed() == Seq::<u8>::empty(),
            list.counter() == 0,
            list.first()@ == Seq::new(16, |i: int| 0u8),
    {
        let list = ChunkList { hasher: md4_new(), first_chunk: [0u8; 16], chunk_counter: 0 };
        assert(list.first_chunk@ =~= Seq::new(16, |i: int| 0u8));
        list
    }

    /// Takes in the digest of the next chunk. The first digest that comes
    /// is kept apart, and stays until the list is reset.
    pub fn add_chunk(&mut self, hash: &[u8; 16])
        ensures
            final(self).listed() == old(self).listed() + hash@,
            final(self).counter() == Self::counted(old(self).counter()),
            final(self).first() == if old(self).counter() == 0 {
                *hash
            } else {
                old(self).first()
            },
    {
        if self.chunk_counter == 0 {
            self.first_chunk = *hash;
        }
        if self.chunk_counter < u64::MAX {
            self.chunk_counter += 1;
        }
        md4_update(&mut self.hasher, hash.as_slice());
    }

    /// Takes the list back to one without chunks.
    pub fn reset(&mut self)
        ensures
            final(self).listed() == Seq::<u8>::empty(),
            final(self).counter() == 0,
            final(self).first()@ == Seq::new(16, |i: int| 0u8),
    {
        md4_reset(&mut self.hasher);
        self.chunk_counter = 0;
        self.first_chunk = [0u8; 16];
        assert(self.first_chunk@ =~= Seq::new(16, |i: int| 0u8));
    }

    /// The number of chunks counted.
    pub fn chunk_counter(&self) -> (counter: u64)
        ensures
            counter == self.counter(),
    {
        self.chunk_counter
    }

    /// Writes the digest of the first chunk into `out`.
    pub fn copy_first_chunk(&self, out: &mut [u8; 16])
        requires
            self.counter() > 0,
        ensures
            *final(out) == self.first(),
    {
        *out = self.first_chunk;
    }

    /// Writes the hash over the digests taken in into `out`. The running
    /// hash starts anew; the counter and the first digest stay.
    pub fn copy_list_hash_reset(&mut self, out: &mut [u8; 16])
        ensures
            final(out)@ == md4(old(self).listed()),
            final(self).listed() == Seq::<u8>::empty(),
            final(self).counter() == old(self).counter(),
            final(self).first() == old(self).first(),
    {
        *out = md4_finalize_reset(&mut self.hasher);
    }
}

impl Default for ChunkList {
    fn default() -> (list: Self)
        ensures
            list.listed() == Seq::<u8>::empty(),
            list.counter() == 0,
            list.first()@ == Seq::new(16, |i: int| 0u8),
    {
        ChunkList::new()
    }
}

impl Clone for ChunkList {
    fn clone(&self) -> (copy: Self)
        ensures
            copy.listed() == self.listed(),
            copy.counter() == self.counter(),
            copy.first() == self.first(),
    {
        ChunkList {
            hasher: md4_clone(&self.hasher),
            first_chunk: self.first_chunk,
            chunk_counter: self.chunk_counter,
        }
    }
}

} // verus!
