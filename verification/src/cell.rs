use vstd::prelude::*;

verus! {

/// A signed 2D grid coordinate. Coordinates outside the grid's domain
/// are simply absent from the store, so edge cells have fewer than
/// eight neighbors.
#[derive(Clone, Copy, Debug, PartialEq, Eq, Hash, Structural)]
pub struct Coord {
    pub x: i32,
    pub y: i32,
}

impl Coord {
    pub fn new(x: i32, y: i32) -> (c: Coord)
        ensures
            c.x == x,
            c.y == y,
    {
        Coord { x, y }
    }
}

/// The relative offsets of a cell's eight neighbors, in the fixed
/// enumeration order: the row above, then left and right, then the
/// row below.
pub open spec fn neighbor_offsets() -> Seq<(int, int)> {
    seq![
        (-1int, -1int),
        (0int, -1int),
        (1int, -1int),
        (-1int, 0int),
        (1int, 0int),
        (-1int, 1int),
        (0int, 1int),
        (1int, 1int),
    ]
}

/// A cell of the grid, identified by its 2D coordinates.
#[derive(Clone, Copy, Debug, PartialEq, Eq, Structural)]
pub struct Cell {
    pub coords: Coord,
}

impl Cell {
    /// The coordinates of the cell's eight neighbors, in the fixed
    /// enumeration order of `neighbor_offsets`.
    pub fn get_neighbor_coords(&self) -> (r: [Coord; 8])
        requires
            i32::MIN < self.coords.x < i32::MAX,
            i32::MIN < self.coords.y < i32::MAX,
        ensures
            forall|i: int| 0 <= i < 8 ==> #[trigger] r@[i] == (Coord {
                x: (self.coords.x + neighbor_offsets()[i].0) as i32,
                y: (self.coords.y + neighbor_offsets()[i].1) as i32,
            }),
    {
        let x = self.coords.x;
        let y = self.coords.y;
        [
            Coord { x: x - 1, y: y - 1 },
            Coord { x, y: y - 1 },
            Coord { x: x + 1, y: y - 1 },
            Coord { x: x - 1, y },
            Coord { x: x + 1, y },
            Coord { x: x - 1, y: y + 1 },
            Coord { x, y: y + 1 },
            Coord { x: x + 1, y: y + 1 },
        ]
    }
}

} // verus!
