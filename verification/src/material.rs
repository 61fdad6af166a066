//! The parameters of a fake interior, as they are authored and as the
//! shading routine reads them.

use crate::fixed::{Fixed, FixedVec2, ONE};
use vstd::prelude::*;

verus! {

/// The raw value of one half.
pub const HALF: i32 = 0x8000;

/// The parameters that an author sets on a surface.
#[derive(Clone, Copy, Debug, PartialEq, Eq, Structural)]
pub struct FakeInteriorMaterial {
    /// Columns and rows of room designs in the atlas.
    pub atlas_rooms: FixedVec2,
    /// Rooms across and up the surface.
    pub rooms: FixedVec2,
    /// Depth of a room, from `0`, flat, to `1`.
    pub depth: Fixed,
    /// Seed of the choice of design for each room.
    pub room_seed: Fixed,
    /// Seed of the choice of lit rooms.
    pub emission_seed: Fixed,
    /// The share of rooms that are lit.
    pub emission_threshold: Fixed,
}

/// The parameters as the shading routine reads them: two pairs, then four
/// numbers, in this order.
#[derive(Clone, Copy, Debug, PartialEq, Eq, Structural)]
pub struct FakeInteriorMaterialUniform {
    pub atlas_rooms: FixedVec2,
    pub rooms: FixedVec2,
    pub depth: Fixed,
    pub room_seed: Fixed,
    pub emission_seed: Fixed,
    pub emission_threshold: Fixed,
}

impl FakeInteriorMaterial {
    /// What an author may set: at least one design along each axis of the
    /// atlas, at least one room along each axis of the surface, and a depth
    /// within `[0, 1]`.
    pub open spec fn valid(self) -> bool {
        &&& self.atlas_rooms.x@ >= ONE
        &&& self.atlas_rooms.y@ >= ONE
        &&& self.rooms.x@ >= ONE
        &&& self.rooms.y@ >= ONE
        &&& 0 <= self.depth@ <= ONE
    }

    /// The record that the shading routine reads for this material.
    pub open spec fn uniform(self) -> FakeInteriorMaterialUniform {
        FakeInteriorMaterialUniform {
            atlas_rooms: self.atlas_rooms,
            rooms: self.rooms,
            depth: self.depth,
            room_seed: self.room_seed,
            emission_seed: self.emission_seed,
            emission_threshold: self.emission_threshold,
        }
    }

    /// Whether the parameters are such as an author may set.
    pub fn is_valid(&self) -> (b: bool)
        ensures
            b == self.valid(),
    {
        self.atlas_rooms.x.raw >= ONE && self.atlas_rooms.y.raw >= ONE && self.rooms.x.raw >= ONE
            && self.rooms.y.raw >= ONE && 0 <= self.depth.raw && self.depth.raw <= ONE
    }

    /// Lays the parameters out for the shading routine, each as it is.
    pub fn as_bind_group_shader_type(&self) -> (u: FakeInteriorMaterialUniform)
        ensures
            u == self.uniform(),
    {
        FakeInteriorMaterialUniform {
            atlas_rooms: self.atlas_rooms,
            rooms: self.rooms,
            depth: self.depth,
            room_seed: self.room_seed,
            emission_seed: self.emission_seed,
            emission_threshold: self.emission_threshold,
        }
    }
}

impl Default for FakeInteriorMaterial {
    /// One design, one room, half as deep as wide, both seeds one, and half
    /// of the rooms lit.
    fn default() -> (m: Self)
        ensures
            m.atlas_rooms.x@ == ONE,
            m.atlas_rooms.y@ == ONE,
            m.rooms.x@ == ONE,
            m.rooms.y@ == ONE,
            m.depth@ == HALF,
            m.room_seed@ == ONE,
            m.emission_seed@ == ONE,
            m.emission_threshold@ == HALF,
            m.valid(),
    {
        FakeInteriorMaterial {
            atlas_rooms: FixedVec2 { x: Fixed { raw: ONE }, y: Fixed { raw: ONE } },
            rooms: FixedVec2 { x: Fixed { raw: ONE }, y: Fixed { raw: ONE } },
            depth: Fixed { raw: HALF },
            room_seed: Fixed { raw: ONE },
            emission_seed: Fixed { raw: ONE },
            emission_threshold: Fixed { raw: HALF },
        }
    }
}

impl FakeInteriorMaterialUniform {
    /// The record as the eight numbers that the shading routine is handed:
    /// the two pairs first, each across before up, then the four single
    /// numbers.
    pub open spec fn words(self) -> Seq<Fixed> {
        seq![
            self.atlas_rooms.x,
            self.atlas_rooms.y,
            self.rooms.x,
            self.rooms.y,
            self.depth,
            self.room_seed,
            self.emission_seed,
            self.emission_threshold,
        ]
    }

    /// The numbers of the record in the order of its layout.
    pub fn to_words(&self) -> (w: [Fixed; 8])
        ensures
            w@ == self.words(),
    {
        let w = [
            self.atlas_rooms.x,
            self.atlas_rooms.y,
            self.rooms.x,
            self.rooms.y,
            self.depth,
            self.room_seed,
            self.emission_seed,
            self.emission_threshold,
        ];
        assert(w@ =~= self.words());
        w
    }

    /// The record that eight numbers in the order of its layout stand for.
    pub fn from_words(w: &[Fixed; 8]) -> (u: FakeInteriorMaterialUniform)
        ensures
            u.words() == w@,
    {
        let u = FakeInteriorMaterialUniform {
            atlas_rooms: FixedVec2 { x: w[0], y: w[1] },
            rooms: FixedVec2 { x: w[2], y: w[3] },
            depth: w[4],
            room_seed: w[5],
            emission_seed: w[6],
            emission_threshold: w[7],
        };
        assert(u.words() =~= w@);
        u
    }
}

/// Laying a record out and reading it back gives the record.
pub proof fn lemma_words_round_trip(u: FakeInteriorMaterialUniform, v: FakeInteriorMaterialUniform)
    requires
        u.words() == v.words(),
    ensures
        u == v,
{
}

impl Default for FakeInteriorMaterialUniform {
    /// Every parameter zero.
    fn default() -> (u: Self)
        ensures
            u.atlas_rooms.x@ == 0,
            u.atlas_rooms.y@ == 0,
            u.rooms.x@ == 0,
            u.rooms.y@ == 0,
            u.depth@ == 0,
            u.room_seed@ == 0,
            u.emission_seed@ == 0,
            u.emission_threshold@ == 0,
    {
        FakeInteriorMaterialUniform {
            atlas_rooms: FixedVec2 { x: Fixed { raw: 0 }, y: Fixed { raw: 0 } },
            rooms: FixedVec2 { x: Fixed { raw: 0 }, y: Fixed { raw: 0 } },
            depth: Fixed { raw: 0 },
            room_seed: Fixed { raw: 0 },
            emission_seed: Fixed { raw: 0 },
            emission_threshold: Fixed { raw: 0 },
        }
    }
}

} // verus!
