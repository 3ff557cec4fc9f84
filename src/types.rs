//! Points, as a tuple struct and as a struct with named fields.

use vstd::prelude::*;

verus! {

/// A point given by its two coordinates.
#[derive(Debug, PartialEq, Eq, Structural)]
pub struct TuplePoint(pub i64, pub i64);

impl TuplePoint {
    /// The first coordinate.
    pub fn x(self) -> (r: i64)
        ensures
            r == self.0,
    {
        self.0
    }

    /// The second coordinate.
    pub fn y(self) -> (r: i64)
        ensures
            r == self.1,
    {
        self.1
    }
}

/// A point with a name.
#[derive(Debug)]
pub struct NamedPoint {
    pub x: i64,
    pub y: i64,
    pub name: String,
}

impl NamedPoint {
    /// A point at `(x, y)` named `name`.
    pub fn new(x: i64, y: i64, name: &str) -> (r: NamedPoint)
        ensures
            r.x == x,
            r.y == y,
            r.name@ == name@,
    {
        NamedPoint { x, y, name: name.to_owned() }
    }

    /// A point at the place of `base`, named `name`.
    pub fn copy(base: NamedPoint, name: &str) -> (r: NamedPoint)
        ensures
            r.x == base.x,
            r.y == base.y,
            r.name@ == name@,
    {
        Self::new(base.x, base.y, name)
    }

    /// The first coordinate.
    pub fn x(self) -> (r: i64)
        ensures
            r == self.x,
    {
        self.x
    }

    /// The second coordinate.
    pub fn y(self) -> (r: i64)
        ensures
            r == self.y,
    {
        self.y
    }
}

} // verus!
