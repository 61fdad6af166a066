//! The atlas: one texture that holds several room designs side by side, of
//! which each room of the surface shows one.

use crate::fixed::{floor_div, Fixed, FixedVec2, ONE};
use crate::hash::{cell_hash, hash_cell, lower_fraction, upper_fraction, ROOM_SALT};
use vstd::prelude::*;

verus! {

/// One design of the atlas, by column and row.
#[derive(Clone, Copy, Debug, PartialEq, Eq, Structural)]
pub struct AtlasCell {
    pub col: u32,
    pub row: u32,
}

/// The number of designs along one axis of the atlas: the whole part of the
/// parameter, and at least one.
pub open spec fn count_of(rooms: int) -> int {
    if rooms / (ONE as int) < 1 {
        1
    } else {
        rooms / (ONE as int)
    }
}

/// The index that a fraction in `[0, 1)` picks out of `count`.
pub open spec fn picked(fraction: int, count: int) -> int {
    (fraction * count) / (ONE as int)
}

/// The column of the design that the room `(cell_x, cell_y)` shows.
pub open spec fn atlas_col(cell_x: i32, cell_y: i32, seed: Fixed, atlas_rooms: FixedVec2) -> int {
    picked(
        upper_fraction(cell_hash(cell_x, cell_y, seed.raw, ROOM_SALT)),
        count_of(atlas_rooms.x@),
    )
}

/// The row of the design that the room `(cell_x, cell_y)` shows.
pub open spec fn atlas_row(cell_x: i32, cell_y: i32, seed: Fixed, atlas_rooms: FixedVec2) -> int {
    picked(
        lower_fraction(cell_hash(cell_x, cell_y, seed.raw, ROOM_SALT)),
        count_of(atlas_rooms.y@),
    )
}

/// A coordinate of the atlas: the place `point` within the design of index
/// `index`, of `count` designs along the axis, rounded down.
pub open spec fn atlas_coord(index: int, point: int, count: int) -> int {
    (index * ONE + point) / count
}

/// A fraction in `[0, 1)` picks an index below the count, and the only index
/// there is where the count is one.
pub proof fn lemma_picked_in_range(fraction: int, count: int)
    requires
        0 <= fraction < ONE,
        1 <= count,
    ensures
        0 <= picked(fraction, count) < count,
        count == 1 ==> picked(fraction, count) == 0,
{
    assert(0 <= fraction * count <= (ONE - 1) * count) by (nonlinear_arith)
        requires
            0 <= fraction <= ONE - 1,
            1 <= count,
    ;
}

/// The number of designs along one axis of the atlas.
pub fn atlas_count(rooms: Fixed) -> (n: u32)
    ensures
        n == count_of(rooms@),
        1 <= n <= 0x7fff,
{
    let whole: i32 = rooms.floor();
    if whole < 1 {
        1
    } else {
        whole as u32
    }
}

fn pick(fraction: u32, count: u32) -> (i: u32)
    requires
        fraction < ONE,
        1 <= count <= 0x7fff,
    ensures
        i == picked(fraction as int, count as int),
        i < count,
{
    proof {
        lemma_picked_in_range(fraction as int, count as int);
    }
    assert(fraction * count <= 0x7fff_0000) by (nonlinear_arith)
        requires
            fraction <= 0xffff,
            count <= 0x7fff,
    ;
    (fraction * count) / (ONE as u32)
}

/// Chooses the design that a room shows, by the hash of the room's index
/// under the seed. An atlas of a single design is not hashed for.
pub fn select_atlas_cell(
    cell_x: i32,
    cell_y: i32,
    room_seed: Fixed,
    atlas_rooms: FixedVec2,
) -> (cell: AtlasCell)
    ensures
        cell.col == atlas_col(cell_x, cell_y, room_seed, atlas_rooms),
        cell.row == atlas_row(cell_x, cell_y, room_seed, atlas_rooms),
        cell.col < count_of(atlas_rooms.x@),
        cell.row < count_of(atlas_rooms.y@),
{
    let cols: u32 = atlas_count(atlas_rooms.x);
    let rows: u32 = atlas_count(atlas_rooms.y);
    if cols == 1 && rows == 1 {
        proof {
            lemma_single_design(cell_x, cell_y, room_seed, atlas_rooms);
        }
        return AtlasCell { col: 0, row: 0 };
    }
    let h: u32 = hash_cell(cell_x, cell_y, room_seed.raw, ROOM_SALT);
    AtlasCell { col: pick(h / 0x1_0000, cols), row: pick(h % 0x1_0000, rows) }
}

/// The coordinate at which the atlas is read: the place `point` of the room,
/// brought into the part of the atlas that the design `cell` takes up. Every
/// layer of the atlas is read at this one coordinate.
pub fn atlas_uv(cell: AtlasCell, point: FixedVec2, atlas_rooms: FixedVec2) -> (uv: FixedVec2)
    requires
        cell.col < count_of(atlas_rooms.x@),
        cell.row < count_of(atlas_rooms.y@),
        point.x.in_unit_closed(),
        point.y.in_unit_closed(),
    ensures
        uv.x@ == atlas_coord(cell.col as int, point.x@, count_of(atlas_rooms.x@)),
        uv.y@ == atlas_coord(cell.row as int, point.y@, count_of(atlas_rooms.y@)),
        uv.x.in_unit_closed(),
        uv.y.in_unit_closed(),
{
    let cols: u32 = atlas_count(atlas_rooms.x);
    let rows: u32 = atlas_count(atlas_rooms.y);
    proof {
        lemma_atlas_coord_in_design(cell.col as int, point.x@, cols as int);
        lemma_atlas_coord_in_design(cell.row as int, point.y@, rows as int);
    }
    let x: i64 = floor_div((cell.col as i64) * (ONE as i64) + (point.x.raw as i64), cols as i64);
    let y: i64 = floor_div((cell.row as i64) * (ONE as i64) + (point.y.raw as i64), rows as i64);
    FixedVec2 { x: Fixed { raw: x as i32 }, y: Fixed { raw: y as i32 } }
}

/// A coordinate of the atlas stays within the design it was made for, and
/// within the atlas: it lies between the coordinate where that design starts
/// and the one where the next would start.
pub proof fn lemma_atlas_coord_in_design(index: int, point: int, count: int)
    requires
        0 <= index < count,
        0 <= point <= ONE,
    ensures
        atlas_coord(index, 0, count) <= atlas_coord(index, point, count) <= atlas_coord(
            index + 1,
            0,
            count,
        ),
        0 <= atlas_coord(index, point, count) <= ONE,
{
    vstd::arithmetic::div_mod::lemma_div_is_ordered(index * ONE, index * ONE + point, count);
    vstd::arithmetic::div_mod::lemma_div_is_ordered(
        index * ONE + point,
        (index + 1) * ONE,
        count,
    );
    vstd::arithmetic::div_mod::lemma_div_is_ordered(0, index * ONE, count);
    vstd::arithmetic::div_mod::lemma_div_is_ordered((index + 1) * ONE, count * ONE, count);
    vstd::arithmetic::div_mod::lemma_div_multiples_vanish(ONE as int, count);
    assert(count * ONE == count * (ONE as int));
    assert(0int / count == 0) by (nonlinear_arith)
        requires
            count > 0,
    ;
}

/// An atlas of a single design shows that design in every room, whatever the
/// room's index and the seed, and is read at the very place of the room.
pub proof fn lemma_single_design(cell_x: i32, cell_y: i32, seed: Fixed, atlas_rooms: FixedVec2)
    requires
        count_of(atlas_rooms.x@) == 1,
        count_of(atlas_rooms.y@) == 1,
    ensures
        atlas_col(cell_x, cell_y, seed, atlas_rooms) == 0,
        atlas_row(cell_x, cell_y, seed, atlas_rooms) == 0,
        forall|point: int| #[trigger] atlas_coord(0, point, 1) == point,
{
    let h = cell_hash(cell_x, cell_y, seed.raw, ROOM_SALT);
    lemma_picked_in_range(upper_fraction(h), 1);
    lemma_picked_in_range(lower_fraction(h), 1);
}

/// The choice of a design has one answer: two choices for the same room,
/// seed and atlas are the same design.
pub proof fn lemma_design_is_determined(
    a: AtlasCell,
    b: AtlasCell,
    cell_x: i32,
    cell_y: i32,
    seed: Fixed,
    atlas_rooms: FixedVec2,
)
    requires
        a.col == atlas_col(cell_x, cell_y, seed, atlas_rooms),
        a.row == atlas_row(cell_x, cell_y, seed, atlas_rooms),
        b.col == atlas_col(cell_x, cell_y, seed, atlas_rooms),
        b.row == atlas_row(cell_x, cell_y, seed, atlas_rooms),
    ensures
        a == b,
        a.col < count_of(atlas_rooms.x@),
        a.row < count_of(atlas_rooms.y@),
{
    let h = cell_hash(cell_x, cell_y, seed.raw, ROOM_SALT);
    lemma_picked_in_range(upper_fraction(h), count_of(atlas_rooms.x@));
    lemma_picked_in_range(lower_fraction(h), count_of(atlas_rooms.y@));
}

} // verus!
