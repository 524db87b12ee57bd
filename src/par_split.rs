//! Splitting of slices into equal chunks that are handed out by a parallel iterator.

use vstd::prelude::*;
use rayon::iter::ParallelIterator;
use rayon::slice::{ParallelSlice, ParallelSliceMut};
use crate::chunks::{
    can_split_into,
    chunks_of,
    lemma_ragged_chunks_exact,
    lemma_split_into_flatten,
    ragged_chunks_of,
    split_into_spec,
};
use crate::split::Split;

verus! {

/// Relies on rayon's `ParallelSlice::par_chunks` (which panics on a zero chunk size),
/// collected into a `Vec`, which keeps the iterator's order: the chunks of `chunk_size`
/// elements, the last one shorter when `chunk_size` does not divide the length.
#[verifier::external_body]
fn par_chunks_of<'a, T: Sync>(s: &'a [T], chunk_size: usize) -> (r: Vec<&'a [T]>)
    requires
        chunk_size > 0,
    ensures
        r@.len() == ragged_chunks_of(s@, chunk_size as nat).len(),
        forall|i: int|
            #![trigger r@[i]]
            0 <= i < r@.len() ==> r@[i]@ == ragged_chunks_of(s@, chunk_size as nat)[i],
{
    s.par_chunks(chunk_size).collect()
}

/// Relies on rayon's `ParallelSliceMut::par_chunks_mut` (which panics on a zero chunk size),
/// collected into a `Vec`, which keeps the iterator's order: the chunks of `chunk_size`
/// elements, the last one shorter when `chunk_size` does not divide the length.
#[verifier::external_body]
fn par_chunks_mut_of<'a, T: Send>(s: &'a mut [T], chunk_size: usize) -> (r: Vec<&'a mut [T]>)
    requires
        chunk_size > 0,
    ensures
        r@.len() == ragged_chunks_of(old(s)@, chunk_size as nat).len(),
        forall|i: int|
            #![trigger r@[i]]
            0 <= i < r@.len() ==> r@[i]@ == ragged_chunks_of(old(s)@, chunk_size as nat)[i],
{
    s.par_chunks_mut(chunk_size).collect()
}

/// A buffer view whose chunks can be handed out for processing in parallel.
pub trait ParSplit: Split {
    /// Cuts the view into consecutive chunks of `chunk_size` elements, gathered in parallel.
    fn into_par_chunks(self, chunk_size: usize) -> (r: Vec<Self>)
        requires
            chunk_size > 0,
            self.elements().len() % (chunk_size as nat) == 0,
        ensures
            r@.len() == chunks_of(self.elements(), chunk_size as nat).len(),
            forall|i: int|
                0 <= i < r@.len() ==> (#[trigger] r@[i]).elements() == chunks_of(
                    self.elements(),
                    chunk_size as nat,
                )[i],
    ;

    /// Cuts the view into `chunk_count` consecutive chunks of equal length, gathered in parallel.
    fn par_split_into(self, chunk_count: usize) -> (r: Vec<Self>)
        requires
            can_split_into(self.elements().len(), chunk_count as nat),
        ensures
            r@.len() == split_into_spec(self.elements(), chunk_count as nat).len(),
            forall|i: int|
                0 <= i < r@.len() ==> (#[trigger] r@[i]).elements() == split_into_spec(
                    self.elements(),
                    chunk_count as nat,
                )[i],
    ;

    /// Cuts the view in two: the first `mid` elements, and the rest.
    fn par_split_at(self, mid: usize) -> (r: (Self, Self))
        requires
            mid <= self.elements().len(),
        ensures
            r.0.elements() == self.elements().subrange(0, mid as int),
            r.1.elements() == self.elements().subrange(mid as int, self.elements().len() as int),
    ;
}

impl<'a, T: Sync> ParSplit for &'a [T] {
    fn into_par_chunks(self, chunk_size: usize) -> (r: Vec<Self>) {
        proof {
            lemma_ragged_chunks_exact(self@, chunk_size as nat);
        }
        par_chunks_of(self, chunk_size)
    }

    fn par_split_into(self, chunk_count: usize) -> (r: Vec<Self>) {
        if chunk_count == 0 {
            let mut out: Vec<&'a [T]> = Vec::new();
            out.push(self);
            out
        } else {
            proof {
                lemma_split_into_flatten(self@, chunk_count as nat);
            }
            self.into_par_chunks(self.len() / chunk_count)
        }
    }

    fn par_split_at(self, mid: usize) -> (r: (Self, Self)) {
        <[T]>::split_at(self, mid)
    }
}

impl<'a, T: Send> ParSplit for &'a mut [T] {
    fn into_par_chunks(self, chunk_size: usize) -> (r: Vec<Self>) {
        proof {
            lemma_ragged_chunks_exact(self@, chunk_size as nat);
        }
        par_chunks_mut_of(self, chunk_size)
    }

    fn par_split_into(self, chunk_count: usize) -> (r: Vec<Self>) {
        if chunk_count == 0 {
            let mut out: Vec<&'a mut [T]> = Vec::new();
            out.push(self);
            out
        } else {
            proof {
                lemma_split_into_flatten(self@, chunk_count as nat);
            }
            let chunk_size = self.len() / chunk_count;
            self.into_par_chunks(chunk_size)
        }
    }

    fn par_split_at(self, mid: usize) -> (r: (Self, Self)) {
        <[T]>::split_at_mut(self, mid)
    }
}

} // verus!
