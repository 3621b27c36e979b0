//! Rectangles with whole-numbered sides, and points on a grid.

use vstd::prelude::*;

verus! {

/// A rectangle, by the lengths of its sides.
#[derive(Debug)]
pub struct Rectangle {
    pub width: u32,
    pub height: u32,
}

impl Rectangle {
    /// The area of the rectangle.
    pub open spec fn spec_area(&self) -> int {
        self.width * self.height
    }

    /// The length of the rectangle's outline.
    pub open spec fn spec_perimeter(&self) -> int {
        2 * (self.width + self.height)
    }

    /// `other` fits inside this rectangle with room to spare on each side.
    pub open spec fn spec_can_hold(&self, other: &Rectangle) -> bool {
        self.width > other.width && self.height > other.height
    }

    /// The area of the rectangle.
    pub fn area(&self) -> (area: u32)
        requires
            self.spec_area() <= u32::MAX,
        ensures
            area == self.spec_area(),
    {
        self.width * self.height
    }

    /// Whether `other` fits inside this rectangle: it must be both narrower
    /// and lower.
    pub fn can_hold(&self, other: &Rectangle) -> (fits: bool)
        ensures
            fits == self.spec_can_hold(other),
    {
        self.width > other.width && self.height > other.height
    }

    /// The square with sides of the length `size`.
    pub fn square(size: u32) -> (square: Rectangle)
        ensures
            square.width == size,
            square.height == size,
    {
        Rectangle { width: size, height: size }
    }

    /// The length of the rectangle's outline.
    pub fn perimeter(&self) -> (perimeter: u32)
        requires
            self.spec_perimeter() <= u32::MAX,
        ensures
            perimeter == self.spec_perimeter(),
    {
        2 * (self.width + self.height)
    }
}

/// No rectangle holds itself; what holds a rectangle holds all that this
/// one holds; and a rectangle that holds another has the larger area.
pub proof fn lemma_can_hold_is_strict_order(a: Rectangle, b: Rectangle, c: Rectangle)
    ensures
        !a.spec_can_hold(&a),
        a.spec_can_hold(&b) && b.spec_can_hold(&c) ==> a.spec_can_hold(&c),
        a.spec_can_hold(&b) ==> a.spec_area() > b.spec_area(),
{
    if a.spec_can_hold(&b) {
        assert(a.width * a.height > b.width * b.height) by (nonlinear_arith)
            requires
                a.width > b.width >= 0,
                a.height > b.height >= 0,
        ;
    }
}

/// A square's area is the square of its side, and its outline four sides.
pub proof fn lemma_square_measures(square: Rectangle)
    requires
        square.width == square.height,
    ensures
        square.spec_area() == square.width * square.width,
        square.spec_perimeter() == 4 * square.width,
{
}

/// A point on a grid.
#[derive(Debug, Clone, Copy)]
pub struct Point {
    pub x: i32,
    pub y: i32,
}

impl std::ops::Add for Point {
    type Output = Point;

    /// Adds two points coordinate by coordinate.
    fn add(self, other: Point) -> (sum: Point) {
        Point { x: self.x + other.x, y: self.y + other.y }
    }
}

impl vstd::std_specs::ops::AddSpecImpl for Point {
    open spec fn obeys_add_spec() -> bool {
        true
    }

    /// Both sums of coordinates fit an `i32`.
    open spec fn add_req(self, other: Point) -> bool {
        &&& i32::MIN <= self.x + other.x <= i32::MAX
        &&& i32::MIN <= self.y + other.y <= i32::MAX
    }

    open spec fn add_spec(self, other: Point) -> Point {
        Point { x: (self.x + other.x) as i32, y: (self.y + other.y) as i32 }
    }
}

} // verus!
