//! Rectangles.

use vstd::prelude::*;

verus! {

/// A rectangle with sides of whole length.
#[derive(Clone, Copy, Debug, PartialEq, Eq, Structural)]
pub struct Rectangle {
    pub width: u32,
    pub height: u32,
}

/// The area of a rectangle of the given sides.
pub fn calculate_area(width: u32, height: u32) -> (area: u32)
    requires
        width * height <= u32::MAX,
    ensures
        area == width * height,
{
    width * height
}

/// The area of a rectangle given as a pair of width and height.
pub fn area(dimensions: (u32, u32)) -> (area: u32)
    requires
        dimensions.0 * dimensions.1 <= u32::MAX,
    ensures
        area == dimensions.0 * dimensions.1,
{
    dimensions.0 * dimensions.1
}

/// The area of a rectangle.
pub fn calculate_area_using_struct(rect: &Rectangle) -> (area: u32)
    requires
        rect.width * rect.height <= u32::MAX,
    ensures
        area == rect.width * rect.height,
{
    rect.width * rect.height
}

impl Rectangle {
    /// Whether `self` is wide enough and strictly higher than `other`.
    pub open spec fn holds(self, other: Rectangle) -> bool {
        self.width >= other.width && self.height > other.height
    }

    /// The area of the rectangle.
    pub fn area(&self) -> (area: u32)
        requires
            self.width * self.height <= u32::MAX,
        ensures
            area == self.width * self.height,
    {
        self.width * self.height
    }

    /// Whether the rectangle has a width at all.
    pub fn width(&self) -> (wide: bool)
        ensures
            wide == (self.width > 0),
    {
        self.width > 0
    }

    /// Whether `other` fits into the rectangle: it must not be wider, and
    /// it must be lower.
    pub fn can_hold(&self, other: &Rectangle) -> (fits: bool)
        ensures
            fits == self.holds(*other),
    {
        self.width >= other.width && self.height > other.height
    }

    /// The square of the given side.
    pub fn square(size: u32) -> (square: Rectangle)
        ensures
            square.width == size,
            square.height == size,
    {
        Rectangle { width: size, height: size }
    }
}

/// A rectangle cannot hold itself, and of two rectangles at most one
/// holds the other.
pub proof fn law_holding_is_strict(a: Rectangle, b: Rectangle)
    ensures
        !a.holds(a),
        !(a.holds(b) && b.holds(a)),
{
}

/// What holds a rectangle also holds what that rectangle holds.
pub proof fn law_holding_is_transitive(a: Rectangle, b: Rectangle, c: Rectangle)
    requires
        a.holds(b),
        b.holds(c),
    ensures
        a.holds(c),
{
}

} // verus!
