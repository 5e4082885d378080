//! Utilities for decoding and encoding data types from and to network order.
pub mod bytes;
pub mod decode;
pub mod encode;
pub mod laws;

pub use decode::Decode;
pub use encode::Encode;

use core::marker::PhantomData;
use vstd::prelude::*;

verus! {

/// A byte array prepended with its size, which is of type `Size`.
#[derive(Debug, PartialEq, Eq, PartialOrd, Ord, Hash)]
pub struct Opaque<Size> {
    inner: Vec<u8>,
    phantom: PhantomData<Size>,
}

impl<Size> View for Opaque<Size> {
    type V = Seq<u8>;

    /// The bytes held, without the size in front.
    closed spec fn view(&self) -> Seq<u8> {
        self.inner@
    }
}

impl<Size> DeepView for Opaque<Size> {
    type V = Seq<u8>;

    open spec fn deep_view(&self) -> Seq<u8> {
        self@
    }
}

impl<Size> Opaque<Size> {
    /// Create an empty instance of this byte array type.
    pub fn new() -> (opaque: Self)
        ensures
            opaque@ == Seq::<u8>::empty(),
    {
        Self { inner: Vec::new(), phantom: PhantomData }
    }

    /// Extract the byte array as a `Vec<u8>`, ignoring the `Size` type.
    pub fn into_inner(self) -> (bytes: Vec<u8>)
        ensures
            bytes@ == self@,
    {
        self.inner
    }

    /// The bytes held, for reading.
    pub fn as_slice(&self) -> (bytes: &[u8])
        ensures
            bytes@ == self@,
    {
        self.inner.as_slice()
    }
}

impl<Size> core::ops::Deref for Opaque<Size> {
    type Target = [u8];

    fn deref(&self) -> (bytes: &[u8])
        ensures
            bytes@ == self@,
    {
        self.inner.as_slice()
    }
}

impl<Size> core::ops::DerefMut for Opaque<Size> {
    fn deref_mut(&mut self) -> (bytes: &mut [u8])
        ensures
            bytes@ == old(self)@,
            final(self)@ == final(bytes)@,
    {
        self.inner.as_mut_slice()
    }
}

impl<Size> Clone for Opaque<Size> {
    fn clone(&self) -> (opaque: Self)
        ensures
            opaque@ == self@,
    {
        Self { inner: self.inner.clone(), phantom: PhantomData }
    }
}

impl<Size> Default for Opaque<Size> {
    fn default() -> (opaque: Self)
        ensures
            opaque@ == Seq::<u8>::empty(),
    {
        Self::new()
    }
}

impl<Size> From<Vec<u8>> for Opaque<Size> {
    fn from(vec: Vec<u8>) -> (opaque: Self)
        ensures
            opaque@ == vec@,
    {
        Self { inner: vec, phantom: PhantomData }
    }
}

impl<Size> vstd::std_specs::convert::FromSpecImpl<Vec<u8>> for Opaque<Size> {
    open spec fn obeys_from_spec() -> bool {
        true
    }

    open spec fn from_spec(vec: Vec<u8>) -> Self {
        Opaque::wrap(vec)
    }
}

impl<Size> Opaque<Size> {
    /// The byte array made of `vec`.
    pub closed spec fn wrap(vec: Vec<u8>) -> Self {
        Opaque { inner: vec, phantom: PhantomData }
    }
}

/// A type that has its size in bytes prepended using `Size` as the type for the size.
#[derive(Debug, PartialEq, Eq)]
pub struct SizeWrapper<Size, T> {
    inner: T,
    phantom: PhantomData<Size>,
}

impl<Size, T> SizeWrapper<Size, T> {
    /// The wrapped object.
    pub closed spec fn value(&self) -> T {
        self.inner
    }

    /// The wrapper of `inner`.
    pub closed spec fn wrap(inner: T) -> Self {
        SizeWrapper { inner, phantom: PhantomData }
    }

    /// The wrapper of an object holds that object.
    pub proof fn lemma_wrap(inner: T)
        ensures
            Self::wrap(inner).value() == inner,
    {
    }

    /// Wrap the given object so that when decoding or encoding its size will be before it.
    pub fn new(inner: T) -> (wrapper: Self)
        ensures
            wrapper.value() == inner,
            wrapper == Self::wrap(inner),
    {
        Self { inner, phantom: PhantomData }
    }

    /// Extract the inner type.
    pub fn into_inner(self) -> (inner: T)
        ensures
            inner == self.value(),
    {
        self.inner
    }

    /// The wrapped object, for reading.
    pub fn get(&self) -> (inner: &T)
        ensures
            *inner == self.value(),
    {
        &self.inner
    }
}

impl<Size, T: DeepView> DeepView for SizeWrapper<Size, T> {
    type V = T::V;

    open spec fn deep_view(&self) -> T::V {
        self.value().deep_view()
    }
}

impl<Size, T> core::ops::Deref for SizeWrapper<Size, T> {
    type Target = T;

    fn deref(&self) -> (inner: &T)
        ensures
            *inner == self.value(),
    {
        &self.inner
    }
}

impl<Size, T> core::ops::DerefMut for SizeWrapper<Size, T> {
    fn deref_mut(&mut self) -> (inner: &mut T)
        ensures
            *inner == old(self).value(),
            final(self).value() == *final(inner),
    {
        &mut self.inner
    }
}

impl<Size, T: Clone> Clone for SizeWrapper<Size, T> {
    fn clone(&self) -> (wrapper: Self)
        ensures
            cloned(self.value(), wrapper.value()),
    {
        Self { inner: self.inner.clone(), phantom: PhantomData }
    }
}

impl<Size, T: Default> Default for SizeWrapper<Size, T> {
    fn default() -> (wrapper: Self)
        ensures
            call_ensures(T::default, (), wrapper.value()),
    {
        Self::new(T::default())
    }
}

/// An array of elements of type `T` that are prepended with their total size in bytes, using
/// `Size` as the type for the size.
pub type Vector<Size, T> = SizeWrapper<Size, Vec<T>>;

/// A type that when decoded will eat the whole remaining data from `ReadBuffer`.
///
/// It has no encoding.
#[derive(Clone, Debug)]
pub struct Ignore;

impl DeepView for Ignore {
    type V = ();

    open spec fn deep_view(&self) -> () {
        ()
    }
}

/// A size of three bytes on the wire: the low 24 bits of the number held.
#[allow(non_camel_case_types)]
#[derive(Clone, Copy, Debug, PartialEq, Eq, Structural)]
pub struct u24(pub u32);

} // verus!
