//! Regrouping of captured audio into chunks of a fixed size.
//!
//! An audio driver delivers samples in whatever portions suit it. The rest of
//! the pipeline is fed chunks of exactly `CHUNK_SIZE` samples, and the
//! threshold calibrator measures windows of exactly one analysis window. The
//! accumulator sits in between: it loses nothing, keeps the order, and holds
//! back only what does not yet fill a chunk.

use vstd::prelude::*;

verus! {

/// Samples per chunk handed to the pipeline (about 21 ms at 48 kHz).
pub const CHUNK_SIZE: usize = 1024;

/// Samples waiting to be emitted in chunks of a fixed size.
pub struct ChunkAccumulator<T> {
    pending: Vec<T>,
    chunk_size: usize,
}

impl<T: Copy> ChunkAccumulator<T> {
    /// The samples taken in and not yet emitted, oldest first.
    pub closed spec fn pending(&self) -> Seq<T> {
        self.pending@
    }

    /// The length of every emitted chunk.
    pub closed spec fn chunk_size(&self) -> nat {
        self.chunk_size as nat
    }

    /// An accumulator with nothing pending that emits chunks of
    /// `chunk_size` samples.
    pub fn new(chunk_size: usize) -> (a: Self)
        requires
            chunk_size > 0,
        ensures
            a.pending() == Seq::<T>::empty(),
            a.chunk_size() == chunk_size,
    {
        ChunkAccumulator { pending: Vec::new(), chunk_size }
    }

    /// Takes in samples behind those already pending.
    pub fn push(&mut self, samples: &[T])
        ensures
            final(self).pending() == old(self).pending() + samples@,
            final(self).chunk_size() == old(self).chunk_size(),
    {
        let mut i: usize = 0;
        while i < samples.len()
            invariant
                i <= samples@.len(),
                self.pending@ == old(self).pending@ + samples@.take(i as int),
                self.chunk_size == old(self).chunk_size,
            decreases samples@.len() - i,
        {
            let x: T = samples[i];
            self.pending.push(x);
            proof {
                assert(samples@.take(i + 1) == samples@.take(i as int).push(x));
            }
            i = i + 1;
        }
        proof {
            assert(samples@.take(samples@.len() as int) == samples@);
        }
    }

    /// Emits the oldest `chunk_size` pending samples, if that many are
    /// pending; otherwise emits nothing and changes nothing. Nothing is lost
    /// or reordered: the emitted chunk followed by what stays pending is
    /// what was pending before.
    pub fn next_chunk(&mut self) -> (chunk: Option<Vec<T>>)
        ensures
            final(self).chunk_size() == old(self).chunk_size(),
            match chunk {
                Some(c) => {
                    &&& old(self).pending().len() >= old(self).chunk_size()
                    &&& c@ == old(self).pending().take(old(self).chunk_size() as int)
                    &&& final(self).pending() == old(self).pending().skip(
                        old(self).chunk_size() as int,
                    )
                    &&& c@ + final(self).pending() == old(self).pending()
                },
                None => {
                    &&& old(self).pending().len() < old(self).chunk_size()
                    &&& final(self).pending() == old(self).pending()
                },
            },
    {
        if self.pending.len() < self.chunk_size {
            return None;
        }
        let rest = self.pending.split_off(self.chunk_size);
        let mut chunk = rest;
        core::mem::swap(&mut chunk, &mut self.pending);
        proof {
            assert(chunk@ + self.pending@ =~= old(self).pending@);
        }
        Some(chunk)
    }

    /// Number of pending samples.
    pub fn len(&self) -> (n: usize)
        ensures
            n == self.pending().len(),
    {
        self.pending.len()
    }
}

} // verus!
