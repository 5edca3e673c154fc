//! Plain coordinate pairs: a concrete integer point and a generic one
//! whose coordinate type is chosen by the caller.

use vstd::prelude::*;
use vstd::std_specs::ops::AddSpec;

verus! {

/// A point on the integer plane.
pub struct Point {
    pub x: i32,
    pub y: i32,
}

impl Point {
    /// A point from its two coordinates.
    pub fn new(x: i32, y: i32) -> (r: Point)
        ensures
            r.x == x,
            r.y == y,
    {
        Point { x: x, y: y }
    }
}

/// A point whose coordinate type is generic.
pub struct PointGeneric<T> {
    pub x: T,
    pub y: T,
}

impl<T> PointGeneric<T> {
    /// Componentwise sum of two points, for any addable coordinate
    /// type.
    pub fn add(&self, rhs: &PointGeneric<T>) -> (r: PointGeneric<T>) where
        T: core::ops::Add<Output = T> + Copy,

        requires
            self.x.add_req(rhs.x),
            self.y.add_req(rhs.y),
        ensures
            T::obeys_add_spec() ==> r.x == self.x.add_spec(rhs.x) && r.y == self.y.add_spec(rhs.y),
    {
        let x_val = self.x + rhs.x;
        let y_val = self.y + rhs.y;
        PointGeneric { x: x_val, y: y_val }
    }
}

impl PointGeneric<i32> {
    /// Componentwise sum of two integer points.
    pub fn add2(&self, rhs: &PointGeneric<i32>) -> (r: PointGeneric<i32>)
        requires
            i32::MIN <= self.x + rhs.x <= i32::MAX,
            i32::MIN <= self.y + rhs.y <= i32::MAX,
        ensures
            r.x == self.x + rhs.x,
            r.y == self.y + rhs.y,
    {
        let x_val = self.x + rhs.x;
        let y_val = self.y + rhs.y;
        PointGeneric { x: x_val, y: y_val }
    }
}

} // verus!
