use vstd::prelude::*;

verus! {

/// A point in a two dimensional space.
#[derive(Debug, Clone, Copy, PartialEq, Eq)]
pub struct Point2<S> {
    pub x: S,
    pub y: S,
}

/// A displacement in a two dimensional space.
#[derive(Debug, Clone, Copy, PartialEq, Eq)]
pub struct Vector2<S> {
    pub x: S,
    pub y: S,
}

impl<S> Point2<S> {
    pub fn new(x: S, y: S) -> (p: Self)
        ensures
            p.x == x,
            p.y == y,
    {
        Point2 { x, y }
    }
}

impl<S> Vector2<S> {
    pub fn new(x: S, y: S) -> (v: Self)
        ensures
            v.x == x,
            v.y == y,
    {
        Vector2 { x, y }
    }
}

} // verus!
