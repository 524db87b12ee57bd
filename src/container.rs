//! Read and write access to buffers of any storage kind, through slices.

use vstd::prelude::*;

verus! {

/// A buffer of elements laid out contiguously, whatever owns its storage.
pub trait Container {
    type Element;

    /// The elements of the buffer, in order.
    spec fn contents(&self) -> Seq<Self::Element>;

    /// The number of elements in the buffer.
    fn container_len(&self) -> (r: usize)
        ensures
            r == self.contents().len(),
    ;

    /// The buffer as a shared slice.
    fn as_view(&self) -> (r: &[Self::Element])
        ensures
            r@ == self.contents(),
    ;
}

/// A buffer whose elements can be written in place.
pub trait ContainerMut: Container {
    /// The buffer as a mutable slice: what is written through it is what the buffer then holds.
    fn as_mut_view(&mut self) -> (r: &mut [Self::Element])
        ensures
            r@ == old(self).contents(),
            final(self).contents() == final(r)@,
    ;
}

/// A buffer that can be built afresh, in its own kind of storage, from a run of elements.
pub trait IntoContainerOwned: ContainerMut + Sized {
    /// A buffer holding `items`, in order.
    fn collect(items: Vec<Self::Element>) -> (r: Self)
        ensures
            r.contents() == items@,
    ;
}

impl<T> Container for [T] {
    type Element = T;

    open spec fn contents(&self) -> Seq<T> {
        self@
    }

    fn container_len(&self) -> (r: usize) {
        self.len()
    }

    fn as_view(&self) -> (r: &[T]) {
        self
    }
}

impl<T> ContainerMut for [T] {
    fn as_mut_view(&mut self) -> (r: &mut [T]) {
        self
    }
}

impl<T> Container for Vec<T> {
    type Element = T;

    open spec fn contents(&self) -> Seq<T> {
        self@
    }

    fn container_len(&self) -> (r: usize) {
        self.len()
    }

    fn as_view(&self) -> (r: &[T]) {
        self.as_slice()
    }
}

impl<T> ContainerMut for Vec<T> {
    fn as_mut_view(&mut self) -> (r: &mut [T]) {
        self.as_mut_slice()
    }
}

impl<'a, T> Container for &'a [T] {
    type Element = T;

    open spec fn contents(&self) -> Seq<T> {
        (**self)@
    }

    fn container_len(&self) -> (r: usize) {
        self.len()
    }

    fn as_view(&self) -> (r: &[T]) {
        *self
    }
}

impl<'a, T> Container for &'a mut [T] {
    type Element = T;

    open spec fn contents(&self) -> Seq<T> {
        (**self)@
    }

    fn container_len(&self) -> (r: usize) {
        self.len()
    }

    fn as_view(&self) -> (r: &[T]) {
        &**self
    }
}

impl<'a, T> ContainerMut for &'a mut [T] {
    fn as_mut_view(&mut self) -> (r: &mut [T]) {
        &mut **self
    }
}

impl<T> Container for Box<[T]> {
    type Element = T;

    open spec fn contents(&self) -> Seq<T> {
        (**self)@
    }

    fn container_len(&self) -> (r: usize) {
        self.len()
    }

    fn as_view(&self) -> (r: &[T]) {
        &**self
    }
}

impl<T> ContainerMut for Box<[T]> {
    fn as_mut_view(&mut self) -> (r: &mut [T]) {
        &mut **self
    }
}

} // verus!
