//! Which room a point of the surface belongs to, and where in that room it
//! lies.

use crate::fixed::{floor_div, product, Fixed, FixedVec2, ONE};
use vstd::prelude::*;

verus! {

/// A point of the surface, as the room it lies in and its place in that room.
#[derive(Clone, Copy, Debug, PartialEq, Eq, Structural)]
pub struct CellCoord {
    pub cell_x: i32,
    pub cell_y: i32,
    /// The place in the room, each coordinate in `[0, 1)`.
    pub local: FixedVec2,
}

/// The index, along one axis, of the room that holds the coordinate `uv` of a
/// surface with `rooms` rooms along that axis: the coordinate in room units,
/// rounded down.
pub open spec fn cell_of(uv: int, rooms: int) -> int {
    product(uv, rooms) / (ONE as int)
}

/// The place of `uv` in its room: what is left of the coordinate in room
/// units above its floor.
pub open spec fn local_of(uv: int, rooms: int) -> int {
    product(uv, rooms) % (ONE as int)
}

fn cell_axis(uv: Fixed, rooms: Fixed) -> (r: (i32, Fixed))
    ensures
        r.0 == cell_of(uv@, rooms@),
        r.1@ == local_of(uv@, rooms@),
        r.1.in_unit(),
{
    let scaled: i64 = uv.times(rooms);
    let cell: i64 = floor_div(scaled, ONE as i64);
    let local: i64 = scaled - cell * (ONE as i64);
    (cell as i32, Fixed { raw: local as i32 })
}

/// Splits a coordinate of the surface into the index of its room and the
/// place in that room. A point on the edge between two rooms belongs to the
/// one with the higher index.
pub fn cell_index(uv: FixedVec2, rooms: FixedVec2) -> (c: CellCoord)
    ensures
        c.cell_x == cell_of(uv.x@, rooms.x@),
        c.cell_y == cell_of(uv.y@, rooms.y@),
        c.local.x@ == local_of(uv.x@, rooms.x@),
        c.local.y@ == local_of(uv.y@, rooms.y@),
        c.local.x.in_unit(),
        c.local.y.in_unit(),
{
    let (cell_x, local_x) = cell_axis(uv.x, rooms.x);
    let (cell_y, local_y) = cell_axis(uv.y, rooms.y);
    CellCoord { cell_x, cell_y, local: FixedVec2 { x: local_x, y: local_y } }
}

/// Each coordinate lies in exactly one room: the index and the place make up
/// the coordinate in room units, and the room with index `c` holds the
/// coordinates from `c` up to, not including, `c + 1`.
pub proof fn lemma_cell_holds(uv: int, rooms: int, c: int)
    ensures
        cell_of(uv, rooms) * ONE + local_of(uv, rooms) == product(uv, rooms),
        0 <= local_of(uv, rooms) < ONE,
        cell_of(uv, rooms) == c <==> c * ONE <= product(uv, rooms) < (c + 1) * ONE,
{
}

/// A coordinate on the edge between two rooms belongs to the upper room, at
/// its very start. With at least one room along the axis, what lies below
/// the edge lies in a lower room, and what lies at or above it does not.
pub proof fn lemma_cell_edge(edge: int, rooms: int, k: int, uv: int)
    requires
        rooms >= ONE,
        product(edge, rooms) == k * ONE,
    ensures
        cell_of(edge, rooms) == k,
        local_of(edge, rooms) == 0,
        uv < edge ==> cell_of(uv, rooms) < k,
        uv >= edge ==> cell_of(uv, rooms) >= k,
{
    if uv < edge {
        assert(uv * rooms <= edge * rooms - ONE) by (nonlinear_arith)
            requires
                uv <= edge - 1,
                rooms >= ONE,
        ;
    } else {
        assert(uv * rooms >= edge * rooms) by (nonlinear_arith)
            requires
                uv >= edge,
                rooms >= 0,
        ;
    }
}

/// Along the surface the room index never goes down, nor does the coordinate
/// in room units.
pub proof fn lemma_cell_monotone(uv1: int, uv2: int, rooms: int)
    requires
        rooms >= 0,
        uv1 <= uv2,
    ensures
        product(uv1, rooms) <= product(uv2, rooms),
        cell_of(uv1, rooms) <= cell_of(uv2, rooms),
{
    assert(uv1 * rooms <= uv2 * rooms) by (nonlinear_arith)
        requires
            uv1 <= uv2,
            rooms >= 0,
    ;
}

} // verus!
