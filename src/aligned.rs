//! Cache-line aligned buffers of 64-bit words, as containers.

use vstd::prelude::*;
use aligned_vec::{ABox, AVec};
use crate::container::{Container, ContainerMut, IntoContainerOwned};

verus! {

/// A growable buffer of words whose storage is aligned on a cache line.
#[verifier::external_body]
pub struct AlignedVec {
    inner: AVec<u64>,
}

/// A fixed-length buffer of words whose storage is aligned on a cache line.
#[verifier::external_body]
pub struct AlignedBox {
    inner: ABox<[u64]>,
}

/// The words that an aligned vector holds, in order.
pub uninterp spec fn aligned_vec_words(v: AlignedVec) -> Seq<u64>;

/// The words that an aligned box holds, in order.
pub uninterp spec fn aligned_box_words(b: AlignedBox) -> Seq<u64>;

/// Relies on `AVec::from_iter`: collects the words in order, at the minimum alignment of the
/// vector's alignment type (alignment argument zero).
#[verifier::external_body]
fn avec_from_vec(words: Vec<u64>) -> (r: AlignedVec)
    ensures
        aligned_vec_words(r) == words@,
{
    AlignedVec { inner: AVec::from_iter(0, words) }
}

/// Relies on `AVec::len`: the number of elements held.
#[verifier::external_body]
fn avec_len(v: &AlignedVec) -> (r: usize)
    ensures
        r == aligned_vec_words(*v).len(),
{
    v.inner.len()
}

/// Relies on `AVec::as_slice`: a slice over the elements held.
#[verifier::external_body]
fn avec_as_slice(v: &AlignedVec) -> (r: &[u64])
    ensures
        r@ == aligned_vec_words(*v),
{
    v.inner.as_slice()
}

/// Relies on `AVec::as_mut_slice`: a mutable slice over the elements held, through which
/// they are written in place.
#[verifier::external_body]
fn avec_as_mut_slice(v: &mut AlignedVec) -> (r: &mut [u64])
    ensures
        r@ == aligned_vec_words(*old(v)),
        aligned_vec_words(*final(v)) == final(r)@,
{
    v.inner.as_mut_slice()
}

/// Relies on `AVec::into_boxed_slice`: the same elements, in a box of the same alignment.
#[verifier::external_body]
fn avec_into_boxed_slice(v: AlignedVec) -> (r: AlignedBox)
    ensures
        aligned_box_words(r) == aligned_vec_words(v),
{
    AlignedBox { inner: v.inner.into_boxed_slice() }
}

/// Relies on `Deref for ABox`: the boxed slice itself.
#[verifier::external_body]
fn abox_as_slice(b: &AlignedBox) -> (r: &[u64])
    ensures
        r@ == aligned_box_words(*b),
{
    &*b.inner
}

/// Relies on `DerefMut for ABox`: the boxed slice itself, written in place.
#[verifier::external_body]
fn abox_as_mut_slice(b: &mut AlignedBox) -> (r: &mut [u64])
    ensures
        r@ == aligned_box_words(*old(b)),
        aligned_box_words(*final(b)) == final(r)@,
{
    &mut *b.inner
}

impl AlignedVec {
    /// An aligned vector holding `words`, in order.
    pub fn from_words(words: Vec<u64>) -> (r: AlignedVec)
        ensures
            r.contents() == words@,
    {
        avec_from_vec(words)
    }
}

impl Container for AlignedVec {
    type Element = u64;

    open spec fn contents(&self) -> Seq<u64> {
        aligned_vec_words(*self)
    }

    fn container_len(&self) -> (r: usize) {
        avec_len(self)
    }

    fn as_view(&self) -> (r: &[u64]) {
        avec_as_slice(self)
    }
}

impl ContainerMut for AlignedVec {
    fn as_mut_view(&mut self) -> (r: &mut [u64]) {
        avec_as_mut_slice(self)
    }
}

impl Container for AlignedBox {
    type Element = u64;

    open spec fn contents(&self) -> Seq<u64> {
        aligned_box_words(*self)
    }

    fn container_len(&self) -> (r: usize) {
        abox_as_slice(self).len()
    }

    fn as_view(&self) -> (r: &[u64]) {
        abox_as_slice(self)
    }
}

impl ContainerMut for AlignedBox {
    fn as_mut_view(&mut self) -> (r: &mut [u64]) {
        abox_as_mut_slice(self)
    }
}

impl IntoContainerOwned for AlignedBox {
    fn collect(items: Vec<u64>) -> (r: AlignedBox) {
        avec_into_boxed_slice(avec_from_vec(items))
    }
}

} // verus!
