//! Sequential splitting of slices into equal chunks or into two parts.

use vstd::prelude::*;
use crate::chunks::{can_split_into, chunks_of, lemma_chunk_in_bounds, split_into_spec};

verus! {

/// A buffer view that can be cut into equal chunks, or in two at an offset.
pub trait Split: Sized {
    type Element;

    /// The elements that the view covers, in order.
    spec fn elements(&self) -> Seq<Self::Element>;

    /// Cuts the view into consecutive chunks of `chunk_size` elements.
    fn into_chunks(self, chunk_size: usize) -> (r: Vec<Self>)
        requires
            chunk_size > 0,
            self.elements().len() % (chunk_size as nat) == 0,
        ensures
            r@.len() == chunks_of(self.elements(), chunk_size as nat).len(),
            forall|i: int|
                0 <= i < r@.len() ==> (#[trigger] r@[i]).elements() == chunks_of(
                    self.elements(),
                    chunk_size as nat,
                )[i],
    ;

    /// Cuts the view into `chunk_count` consecutive chunks of equal length.
    fn split_into(self, chunk_count: usize) -> (r: Vec<Self>)
        requires
            can_split_into(self.elements().len(), chunk_count as nat),
        ensures
            r@.len() == split_into_spec(self.elements(), chunk_count as nat).len(),
            forall|i: int|
                0 <= i < r@.len() ==> (#[trigger] r@[i]).elements() == split_into_spec(
                    self.elements(),
                    chunk_count as nat,
                )[i],
    ;

    /// Cuts the view in two: the first `mid` elements, and the rest.
    fn split_at(self, mid: usize) -> (r: (Self, Self))
        requires
            mid <= self.elements().len(),
        ensures
            r.0.elements() == self.elements().subrange(0, mid as int),
            r.1.elements() == self.elements().subrange(mid as int, self.elements().len() as int),
    ;
}

impl<'a, T> Split for &'a [T] {
    type Element = T;

    open spec fn elements(&self) -> Seq<T> {
        (**self)@
    }

    fn into_chunks(self, chunk_size: usize) -> (r: Vec<Self>) {
        let len = self.len();
        let count = len / chunk_size;
        let mut out: Vec<&'a [T]> = Vec::new();
        let mut i: usize = 0;
        while i < count
            invariant
                chunk_size > 0,
                len == self@.len(),
                count == self@.len() / (chunk_size as nat),
                i <= count,
                out@.len() == i,
                forall|j: int|
                    0 <= j < i ==> (#[trigger] out@[j])@ == chunks_of(self@, chunk_size as nat)[j],
            decreases count - i,
        {
            proof {
                lemma_chunk_in_bounds(self@.len(), chunk_size as nat, i as int);
                assert(i * chunk_size + chunk_size <= self@.len());
            }
            let start = i * chunk_size;
            out.push(vstd::slice::slice_subrange(self, start, start + chunk_size));
            i += 1;
        }
        out
    }

    fn split_into(self, chunk_count: usize) -> (r: Vec<Self>) {
        if chunk_count == 0 {
            let mut out: Vec<&'a [T]> = Vec::new();
            out.push(self);
            out
        } else {
            let chunk_size = self.len() / chunk_count;
            proof {
                crate::chunks::lemma_split_into_flatten(self@, chunk_count as nat);
            }
            self.into_chunks(chunk_size)
        }
    }

    fn split_at(self, mid: usize) -> (r: (Self, Self)) {
        <[T]>::split_at(self, mid)
    }
}

impl<'a, T> Split for &'a mut [T] {
    type Element = T;

    open spec fn elements(&self) -> Seq<T> {
        (**self)@
    }

    fn into_chunks(self, chunk_size: usize) -> (r: Vec<Self>) {
        let len = self.len();
        let count = len / chunk_size;
        let ghost whole = self@;
        let mut rest: &'a mut [T] = self;
        let mut out: Vec<&'a mut [T]> = Vec::new();
        let mut i: usize = 0;
        while i < count
            invariant
                chunk_size > 0,
                len == whole.len(),
                count == whole.len() / (chunk_size as nat),
                i <= count,
                out@.len() == i,
                rest@ == whole.subrange(i * chunk_size, whole.len() as int),
                forall|j: int|
                    #![trigger out@[j]]
                    0 <= j < i ==> out@[j]@ == chunks_of(whole, chunk_size as nat)[j],
            decreases count - i,
        {
            proof {
                lemma_chunk_in_bounds(whole.len(), chunk_size as nat, i as int);
                assert(i * chunk_size + chunk_size <= whole.len());
                assert((i + 1) * chunk_size == i * chunk_size + chunk_size) by (nonlinear_arith);
            }
            let (head, tail) = rest.split_at_mut(chunk_size);
            out.push(head);
            rest = tail;
            i += 1;
        }
        out
    }

    fn split_into(self, chunk_count: usize) -> (r: Vec<Self>) {
        if chunk_count == 0 {
            let mut out: Vec<&'a mut [T]> = Vec::new();
            out.push(self);
            out
        } else {
            let chunk_size = self.len() / chunk_count;
            proof {
                crate::chunks::lemma_split_into_flatten(self@, chunk_count as nat);
            }
            self.into_chunks(chunk_size)
        }
    }

    fn split_at(self, mid: usize) -> (r: (Self, Self)) {
        <[T]>::split_at_mut(self, mid)
    }
}

} // verus!
