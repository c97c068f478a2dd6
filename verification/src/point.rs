//! A named point of an object.

use crate::geometry::Position;
use crate::ids::new_id;
use vstd::prelude::*;

verus! {

/// A named, identified point in world space.
#[derive(Clone, Debug)]
pub struct Point {
    pub name: String,
    pub id: u128,
    pub position: Position,
}

impl Point {
    /// A fresh point: empty name, new identifier, placed at the origin.
    pub fn new() -> (p: Point)
        ensures
            p.name@ == Seq::<char>::empty(),
            p.position == (Position { x: 0, y: 0, z: 0 }),
    {
        Point { name: String::new(), id: new_id(), position: Position::zero() }
    }
}

} // verus!
