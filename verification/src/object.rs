//! An object of a project: a named collection of points.

use crate::geometry::Position;
use crate::ids::new_id;
use crate::point::Point;
use vstd::prelude::*;

verus! {

/// A named, identified collection of points.
#[derive(Clone, Debug)]
pub struct Object {
    pub name: String,
    pub id: u128,
    pub points: Vec<Point>,
}

/// What a freshly created object looks like: the default name and two
/// default points, one at the origin and one a unit above it. Identifiers
/// are freshly drawn, so nothing is said of them.
pub open spec fn is_new_object(o: Object) -> bool {
    &&& o.name@ == "New Object"@
    &&& o.points@.len() == 2
    &&& o.points@[0].name@ == "Point A"@
    &&& o.points@[0].position == (Position { x: 0, y: 0, z: 0 })
    &&& o.points@[1].name@ == "Point B"@
    &&& o.points@[1].position == (Position { x: 0, y: 1000, z: 0 })
}

impl Object {
    /// A fresh object with its two default points.
    pub fn new() -> (o: Object)
        ensures
            is_new_object(o),
    {
        let mut points: Vec<Point> = Vec::new();
        points.push(
            Point {
                name: "Point A".to_owned(),
                id: new_id(),
                position: Position::zero(),
            },
        );
        points.push(
            Point {
                name: "Point B".to_owned(),
                id: new_id(),
                position: Position { x: 0, y: 1000, z: 0 },
            },
        );
        Object { name: "New Object".to_owned(), id: new_id(), points }
    }
}

} // verus!
