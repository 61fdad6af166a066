//! The shading routine, fragment by fragment: from a point of the surface
//! and a view direction to the coordinate at which the atlas is read, and
//! from what was read there to the colour of the fragment.

use crate::atlas::{
    atlas_col, atlas_coord, atlas_row, atlas_uv, count_of, lemma_single_design,
    select_atlas_cell, AtlasCell,
};
use crate::cell::{cell_index, cell_of, local_of, CellCoord};
use crate::emission::{compose_output, emission_gate, gate_emissive, gated, is_lit, Rgb, Rgba};
use crate::fixed::{saturated, Fixed, FixedVec2, FixedVec3, ONE};
use crate::material::FakeInteriorMaterialUniform;
use crate::parallax::{
    box_intersection, hit_face, hit_shift, inward_speed, lateral_velocity,
    lemma_flat_room_keeps_point, room_depth, BoxHit, ExitFace,
};
use vstd::prelude::*;

verus! {

/// What the routine finds for one fragment before any texture is read.
#[derive(Clone, Copy, Debug, PartialEq, Eq, Structural)]
pub struct RoomSample {
    /// The room that the fragment lies in, and its place there.
    pub cell: CellCoord,
    /// The design that this room shows.
    pub atlas_cell: AtlasCell,
    /// Where the view ray leaves the room.
    pub hit: BoxHit,
    /// The coordinate at which base colour, normal and emission are read.
    pub atlas_uv: FixedVec2,
    /// Whether the room is lit.
    pub lit: bool,
}

/// Whether `s` is what the routine finds for the point `uv` of the surface,
/// seen along `dir`, under the parameters `p`.
pub open spec fn is_room_sample(
    s: RoomSample,
    uv: FixedVec2,
    dir: FixedVec3,
    p: FakeInteriorMaterialUniform,
) -> bool {
    &&& s.cell.cell_x == cell_of(uv.x@, p.rooms.x@)
    &&& s.cell.cell_y == cell_of(uv.y@, p.rooms.y@)
    &&& s.cell.local.x@ == local_of(uv.x@, p.rooms.x@)
    &&& s.cell.local.y@ == local_of(uv.y@, p.rooms.y@)
    &&& s.atlas_cell.col == atlas_col(s.cell.cell_x, s.cell.cell_y, p.room_seed, p.atlas_rooms)
    &&& s.atlas_cell.row == atlas_row(s.cell.cell_x, s.cell.cell_y, p.room_seed, p.atlas_rooms)
    &&& s.hit.face == hit_face(s.cell.local, dir, p.rooms, p.depth)
    &&& s.hit.uv.x@ == s.cell.local.x@ + hit_shift(
        s.cell.local,
        dir,
        p.rooms,
        p.depth,
        lateral_velocity(dir.x, p.rooms.x),
    )
    &&& s.hit.uv.y@ == s.cell.local.y@ + hit_shift(
        s.cell.local,
        dir,
        p.rooms,
        p.depth,
        lateral_velocity(dir.y, p.rooms.y),
    )
    &&& s.hit.depth@ == hit_shift(s.cell.local, dir, p.rooms, p.depth, inward_speed(dir.z))
    &&& s.atlas_uv.x@ == atlas_coord(
        s.atlas_cell.col as int,
        s.hit.uv.x@,
        count_of(p.atlas_rooms.x@),
    )
    &&& s.atlas_uv.y@ == atlas_coord(
        s.atlas_cell.row as int,
        s.hit.uv.y@,
        count_of(p.atlas_rooms.y@),
    )
    &&& s.lit == is_lit(s.cell.cell_x, s.cell.cell_y, p.emission_seed, p.emission_threshold)
}

impl RoomSample {
    /// Whether the sample lies where one for the parameters `p` does: its
    /// points within the room, the point of exit no deeper than the room,
    /// the design one of the atlas, and the atlas coordinate within the
    /// atlas.
    pub open spec fn fits(self, p: FakeInteriorMaterialUniform) -> bool {
        &&& self.cell.local.x.in_unit()
        &&& self.cell.local.y.in_unit()
        &&& self.atlas_cell.col < count_of(p.atlas_rooms.x@)
        &&& self.atlas_cell.row < count_of(p.atlas_rooms.y@)
        &&& self.hit.uv.x.in_unit_closed()
        &&& self.hit.uv.y.in_unit_closed()
        &&& 0 <= self.hit.depth@ <= room_depth(p.depth)
        &&& self.atlas_uv.x.in_unit_closed()
        &&& self.atlas_uv.y.in_unit_closed()
    }
}

/// Finds, for a point of the surface seen along a view direction in tangent
/// space, the room, its design, the point where the view ray leaves the
/// room, the coordinate at which to read the atlas, and whether the room is
/// lit.
pub fn room_sample(
    uv: FixedVec2,
    tangent_view_dir: FixedVec3,
    params: &FakeInteriorMaterialUniform,
) -> (s: RoomSample)
    ensures
        is_room_sample(s, uv, tangent_view_dir, *params),
        s.fits(*params),
{
    let cell = cell_index(uv, params.rooms);
    let atlas_cell = select_atlas_cell(
        cell.cell_x,
        cell.cell_y,
        params.room_seed,
        params.atlas_rooms,
    );
    let hit = box_intersection(cell.local, tangent_view_dir, params.rooms, params.depth);
    let at = atlas_uv(atlas_cell, hit.uv, params.atlas_rooms);
    let lit = emission_gate(
        cell.cell_x,
        cell.cell_y,
        params.emission_seed,
        params.emission_threshold,
    );
    RoomSample { cell, atlas_cell, hit, atlas_uv: at, lit }
}

/// The colour of a fragment, from what the host read at the sample's atlas
/// coordinate: the base colour as the host has lit it, plus the emissive
/// colour times `intensity` where the room is lit.
pub fn shade(
    sample: &RoomSample,
    lit_base: Rgba,
    emissive: Rgb,
    intensity: Fixed,
    blended: bool,
) -> (out: Rgba)
    ensures
        out.r@ == saturated(lit_base.r@ + gated(emissive.r, sample.lit, intensity)),
        out.g@ == saturated(lit_base.g@ + gated(emissive.g, sample.lit, intensity)),
        out.b@ == saturated(lit_base.b@ + gated(emissive.b, sample.lit, intensity)),
        out.a@ == if blended {
            lit_base.a@
        } else {
            ONE as int
        },
{
    compose_output(lit_base, gate_emissive(emissive, sample.lit, intensity), blended)
}

/// The routine has one answer: what it finds depends on nothing but the
/// point, the view direction and the parameters.
pub proof fn lemma_sample_unique(
    s1: RoomSample,
    s2: RoomSample,
    uv: FixedVec2,
    dir: FixedVec3,
    p: FakeInteriorMaterialUniform,
)
    requires
        is_room_sample(s1, uv, dir, p),
        is_room_sample(s2, uv, dir, p),
    ensures
        s1 == s2,
{
}

/// The view direction does not change which room a point lies in, which
/// design the room shows, nor whether it is lit.
pub proof fn lemma_view_keeps_room(
    s1: RoomSample,
    s2: RoomSample,
    uv: FixedVec2,
    dir1: FixedVec3,
    dir2: FixedVec3,
    p: FakeInteriorMaterialUniform,
)
    requires
        is_room_sample(s1, uv, dir1, p),
        is_room_sample(s2, uv, dir2, p),
    ensures
        s1.cell == s2.cell,
        s1.atlas_cell == s2.atlas_cell,
        s1.lit == s2.lit,
{
}

/// Two points of one room show the same design and are lit alike.
pub proof fn lemma_room_is_uniform(
    s1: RoomSample,
    s2: RoomSample,
    uv1: FixedVec2,
    uv2: FixedVec2,
    dir1: FixedVec3,
    dir2: FixedVec3,
    p: FakeInteriorMaterialUniform,
)
    requires
        is_room_sample(s1, uv1, dir1, p),
        is_room_sample(s2, uv2, dir2, p),
        s1.cell.cell_x == s2.cell.cell_x,
        s1.cell.cell_y == s2.cell.cell_y,
    ensures
        s1.atlas_cell == s2.atlas_cell,
        s1.lit == s2.lit,
{
}

/// Rooms without depth are flat pictures: the atlas is read at the place of
/// the fragment in its room, whatever the view direction.
pub proof fn lemma_flat_sample(
    s: RoomSample,
    uv: FixedVec2,
    dir: FixedVec3,
    p: FakeInteriorMaterialUniform,
)
    requires
        is_room_sample(s, uv, dir, p),
        p.depth@ <= 0,
    ensures
        s.hit.uv == s.cell.local,
        s.hit.depth@ == 0,
        s.hit.face == ExitFace::Back,
{
    lemma_flat_room_keeps_point(
        s.cell.local,
        dir,
        p.rooms,
        p.depth,
        lateral_velocity(dir.x, p.rooms.x),
    );
    lemma_flat_room_keeps_point(
        s.cell.local,
        dir,
        p.rooms,
        p.depth,
        lateral_velocity(dir.y, p.rooms.y),
    );
    lemma_flat_room_keeps_point(s.cell.local, dir, p.rooms, p.depth, inward_speed(dir.z));
}

/// With an atlas of one design, every fragment reads that design, at the
/// point where its view ray leaves the room: the offset into the atlas is
/// the same for all rooms and all seeds.
pub proof fn lemma_single_design_sample(
    s: RoomSample,
    uv: FixedVec2,
    dir: FixedVec3,
    p: FakeInteriorMaterialUniform,
)
    requires
        is_room_sample(s, uv, dir, p),
        count_of(p.atlas_rooms.x@) == 1,
        count_of(p.atlas_rooms.y@) == 1,
    ensures
        s.atlas_cell == (AtlasCell { col: 0, row: 0 }),
        s.atlas_uv == s.hit.uv,
{
    lemma_single_design(s.cell.cell_x, s.cell.cell_y, p.room_seed, p.atlas_rooms);
    assert(atlas_coord(0, s.hit.uv.x@, 1) == s.hit.uv.x@);
    assert(atlas_coord(0, s.hit.uv.y@, 1) == s.hit.uv.y@);
}

} // verus!
