//! Points on the playfield.

use vstd::prelude::*;

verus! {

/// A 2D point (or any pair of values).
#[derive(Debug, Clone, Copy, PartialEq, Eq, Structural)]
pub struct Point<T> {
    /// The first coordinate.
    pub x: T,
    /// The second coordinate.
    pub y: T,
}

impl<T> Point<T> {
    /// Creates a new point.
    pub fn new(x: T, y: T) -> (p: Point<T>)
        ensures
            p.x == x,
            p.y == y,
    {
        Point { x, y }
    }
}

impl Point<i32> {
    /// The sum of two points, coordinate by coordinate.
    pub fn plus(self, other: Point<i32>) -> (r: Point<i32>)
        requires
            i32::MIN <= self.x + other.x <= i32::MAX,
            i32::MIN <= self.y + other.y <= i32::MAX,
        ensures
            r.x == self.x + other.x,
            r.y == self.y + other.y,
    {
        Point { x: self.x + other.x, y: self.y + other.y }
    }

    /// The difference of two points, coordinate by coordinate.
    pub fn minus(self, other: Point<i32>) -> (r: Point<i32>)
        requires
            i32::MIN <= self.x - other.x <= i32::MAX,
            i32::MIN <= self.y - other.y <= i32::MAX,
        ensures
            r.x == self.x - other.x,
            r.y == self.y - other.y,
    {
        Point { x: self.x - other.x, y: self.y - other.y }
    }

    /// The product of two points, coordinate by coordinate.
    pub fn times(self, other: Point<i32>) -> (r: Point<i32>)
        requires
            i32::MIN <= self.x * other.x <= i32::MAX,
            i32::MIN <= self.y * other.y <= i32::MAX,
        ensures
            r.x == self.x * other.x,
            r.y == self.y * other.y,
    {
        Point { x: self.x * other.x, y: self.y * other.y }
    }

    /// The point with both coordinates multiplied by `k`.
    pub fn scaled(self, k: i32) -> (r: Point<i32>)
        requires
            i32::MIN <= self.x * k <= i32::MAX,
            i32::MIN <= self.y * k <= i32::MAX,
        ensures
            r.x == self.x * k,
            r.y == self.y * k,
    {
        Point { x: self.x * k, y: self.y * k }
    }

    /// The point with both coordinates negated.
    pub fn negated(self) -> (r: Point<i32>)
        requires
            self.x != i32::MIN,
            self.y != i32::MIN,
        ensures
            r.x == -self.x,
            r.y == -self.y,
    {
        Point { x: -self.x, y: -self.y }
    }

    /// Dot product of two points: `x * x' + y * y'`.
    pub fn dot(self, other: Point<i32>) -> (r: i32)
        requires
            i32::MIN <= self.x * other.x <= i32::MAX,
            i32::MIN <= self.y * other.y <= i32::MAX,
            i32::MIN <= self.x * other.x + self.y * other.y <= i32::MAX,
        ensures
            r == self.x * other.x + self.y * other.y,
    {
        self.x * other.x + self.y * other.y
    }

    /// The squared Euclidean distance between two points, computed exactly.
    pub fn distance_squared(&self, other: Point<i32>) -> (r: i128)
        ensures
            r == (other.x - self.x) * (other.x - self.x) + (other.y - self.y) * (other.y
                - self.y),
    {
        let dx = other.x as i128 - self.x as i128;
        let dy = other.y as i128 - self.y as i128;
        assert(0 <= dx * dx <= 0x1_0000_0000_0000_0000) by (nonlinear_arith)
            requires
                -0x1_0000_0000 < dx < 0x1_0000_0000,
        ;
        assert(0 <= dy * dy <= 0x1_0000_0000_0000_0000) by (nonlinear_arith)
            requires
                -0x1_0000_0000 < dy < 0x1_0000_0000,
        ;
        dx * dx + dy * dy
    }

    /// The squared Euclidean distance from the origin, computed exactly.
    pub fn length_squared(&self) -> (r: i128)
        ensures
            r == self.x * self.x + self.y * self.y,
    {
        let x = self.x as i128;
        let y = self.y as i128;
        assert(0 <= x * x <= 0x4000_0000_0000_0000) by (nonlinear_arith)
            requires
                -0x8000_0000 <= x < 0x8000_0000,
        ;
        assert(0 <= y * y <= 0x4000_0000_0000_0000) by (nonlinear_arith)
            requires
                -0x8000_0000 <= y < 0x8000_0000,
        ;
        x * x + y * y
    }
}

} // verus!
