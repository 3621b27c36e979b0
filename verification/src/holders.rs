//! Small generic holders of values.

use std::marker::PhantomData;
use std::ops::Deref;
use vstd::prelude::*;

verus! {

/// A pair of coordinates of one type.
#[derive(Debug)]
pub struct Point<T> {
    pub x: T,
    pub y: T,
}

impl<T> Point<T> {
    /// The first coordinate.
    pub fn x(&self) -> (first: &T)
        ensures
            *first == self.x,
    {
        &self.x
    }
}

/// A pair of coordinates of two types.
#[derive(Debug)]
pub struct Point2<T, U> {
    pub x: T,
    pub y: U,
}

/// The first element of an array that has one.
pub fn first_element<T, const N: usize>(arr: &[T; N]) -> (first: &T)
    requires
        N > 0,
    ensures
        *first == arr@[0],
{
    &arr[0]
}

/// Something that holds a number and can hand it through a function.
pub trait MapValue: Sized {
    /// What comes out.
    type Output;

    /// The number held.
    spec fn held(&self) -> i32;

    /// The number that `output` holds.
    spec fn held_by_output(output: &Self::Output) -> i32;

    /// The holder of what `f` makes of the number held.
    fn map<F>(self, f: F) -> (output: Self::Output) where F: FnOnce(i32) -> i32
        requires
            call_requires(f, (self.held(),)),
        ensures
            call_ensures(f, (self.held(),), Self::held_by_output(&output)),
    ;
}

/// A holder of one number.
pub struct Container {
    pub value: i32,
}

impl MapValue for Container {
    type Output = Container;

    open spec fn held(&self) -> i32 {
        self.value
    }

    open spec fn held_by_output(output: &Container) -> i32 {
        output.value
    }

    fn map<F>(self, f: F) -> (output: Container) where F: FnOnce(i32) -> i32 {
        Container { value: f(self.value) }
    }
}

/// A block of `SIZE` bytes.
pub struct Buffer<const SIZE: usize> {
    data: [u8; SIZE],
}

impl<const SIZE: usize> Buffer<SIZE> {
    /// The bytes of the buffer.
    pub closed spec fn bytes(&self) -> Seq<u8> {
        self.data@
    }

    /// A buffer of zeros.
    pub fn new() -> (buffer: Self)
        ensures
            buffer.bytes().len() == SIZE,
            forall|i: int| 0 <= i < SIZE ==> buffer.bytes()[i] == 0,
    {
        Buffer { data: [0;SIZE] }
    }

    /// The number of bytes the buffer holds.
    pub fn capacity(&self) -> (capacity: usize)
        ensures
            capacity == SIZE,
            capacity == self.bytes().len(),
    {
        SIZE
    }
}

/// A borrowed value.
pub struct Wrapper<'a, T: 'a + ?Sized> {
    pub value: &'a T,
}

impl<'a, T> Wrapper<'a, T> {
    /// The value that was borrowed, for as long as the loan lasts.
    pub fn get_value(&self) -> (value: &'a T)
        ensures
            value == self.value,
    {
        self.value
    }
}

/// A box of its own making around one value.
pub struct MyBox<T>(pub T);

impl<T> Deref for MyBox<T> {
    type Target = T;

    /// The value in the box.
    fn deref(&self) -> (inner: &T)
        ensures
            *inner == self.0,
    {
        &self.0
    }
}

/// A value that holds nothing but is tied to a `T` borrowed for `'a`.
pub struct Marker<'a, T> {
    data: PhantomData<&'a T>,
}

impl<'a, T> Marker<'a, T> {
    /// A marker.
    pub fn new() -> Self {
        Marker { data: PhantomData }
    }
}

} // verus!
