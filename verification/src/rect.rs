//! A rectangle with integer sides: its area, whether it can hold another,
//! and the square as a special case.

use vstd::prelude::*;

verus! {

/// A rectangle, described by the lengths of its sides.
#[derive(Clone, Copy, Debug, PartialEq, Eq, Structural)]
pub struct Rectangle {
    pub width: u32,
    pub height: u32,
}

impl Rectangle {
    /// The area of the rectangle.
    pub fn area(&self) -> (a: u32)
        requires
            self.width * self.height <= u32::MAX,
        ensures
            a == self.width * self.height,
    {
        self.width * self.height
    }

    /// Whether `other` fits strictly inside this rectangle, without turning
    /// it: both sides must be strictly shorter.
    pub fn can_hold(&self, other: &Rectangle) -> (r: bool)
        ensures
            r == (self.width > other.width && self.height > other.height),
    {
        self.width > other.width && self.height > other.height
    }

    /// The square with the given side.
    pub fn square(size: u32) -> (r: Rectangle)
        ensures
            r.width == size,
            r.height == size,
    {
        Rectangle { width: size, height: size }
    }
}

/// The area of a rectangle, as a free function.
pub fn area(rectangle: &Rectangle) -> (a: u32)
    requires
        rectangle.width * rectangle.height <= u32::MAX,
    ensures
        a == rectangle.width * rectangle.height,
{
    rectangle.width * rectangle.height
}

} // verus!
