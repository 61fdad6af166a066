//! Which rooms are lit, and the colour of a fragment once its textures have
//! been read.

use crate::fixed::{product, saturated, Fixed, ONE};
use crate::hash::{cell_hash, hash_cell, upper_fraction, EMISSION_SALT};
use vstd::prelude::*;

verus! {

/// A colour without opacity.
#[derive(Clone, Copy, Debug, PartialEq, Eq, Structural)]
pub struct Rgb {
    pub r: Fixed,
    pub g: Fixed,
    pub b: Fixed,
}

/// A colour with its opacity.
#[derive(Clone, Copy, Debug, PartialEq, Eq, Structural)]
pub struct Rgba {
    pub r: Fixed,
    pub g: Fixed,
    pub b: Fixed,
    pub a: Fixed,
}

/// The level in `[0, 1)` that a room draws under the seed: the lower, the
/// sooner the room is lit.
pub open spec fn emission_level(cell_x: i32, cell_y: i32, seed: Fixed) -> int {
    upper_fraction(cell_hash(cell_x, cell_y, seed.raw, EMISSION_SALT))
}

/// Whether a room is lit: its level does not exceed the threshold.
pub open spec fn is_lit(cell_x: i32, cell_y: i32, seed: Fixed, threshold: Fixed) -> bool {
    emission_level(cell_x, cell_y, seed) <= threshold@
}

/// One channel of what a room emits: nothing where the room is dark, else
/// the texture's value times the intensity.
pub open spec fn gated(emissive: Fixed, lit: bool, intensity: Fixed) -> int {
    if lit {
        saturated(product(emissive@, intensity@))
    } else {
        0
    }
}

/// Decides whether a room is lit. The answer depends on nothing but the
/// room's index, the seed and the threshold.
pub fn emission_gate(
    cell_x: i32,
    cell_y: i32,
    emission_seed: Fixed,
    emission_threshold: Fixed,
) -> (lit: bool)
    ensures
        lit == is_lit(cell_x, cell_y, emission_seed, emission_threshold),
{
    let h: u32 = hash_cell(cell_x, cell_y, emission_seed.raw, EMISSION_SALT);
    let level: u32 = h / 0x1_0000;
    (level as i64) <= (emission_threshold.raw as i64)
}

fn gate_channel(emissive: Fixed, lit: bool, intensity: Fixed) -> (r: Fixed)
    ensures
        r@ == gated(emissive, lit, intensity),
{
    if !lit {
        return Fixed { raw: 0 };
    }
    Fixed::saturate(emissive.times(intensity))
}

/// What a room emits: the emissive texture's colour times the intensity
/// where the room is lit, and black where it is dark.
pub fn gate_emissive(emissive: Rgb, lit: bool, intensity: Fixed) -> (out: Rgb)
    ensures
        out.r@ == gated(emissive.r, lit, intensity),
        out.g@ == gated(emissive.g, lit, intensity),
        out.b@ == gated(emissive.b, lit, intensity),
{
    Rgb {
        r: gate_channel(emissive.r, lit, intensity),
        g: gate_channel(emissive.g, lit, intensity),
        b: gate_channel(emissive.b, lit, intensity),
    }
}

/// The colour of the fragment: the base colour as the host has lit it, plus
/// what the room emits. A blended material keeps the opacity of the base
/// colour; any other is opaque.
pub fn compose_output(lit_base: Rgba, emitted: Rgb, blended: bool) -> (out: Rgba)
    ensures
        out.r@ == saturated(lit_base.r@ + emitted.r@),
        out.g@ == saturated(lit_base.g@ + emitted.g@),
        out.b@ == saturated(lit_base.b@ + emitted.b@),
        out.a@ == if blended {
            lit_base.a@
        } else {
            ONE as int
        },
{
    Rgba {
        r: Fixed::saturate(lit_base.r.raw as i64 + emitted.r.raw as i64),
        g: Fixed::saturate(lit_base.g.raw as i64 + emitted.g.raw as i64),
        b: Fixed::saturate(lit_base.b.raw as i64 + emitted.b.raw as i64),
        a: if blended {
            lit_base.a
        } else {
            Fixed { raw: ONE }
        },
    }
}

/// Whether a room is lit has one answer, which no second look changes, and
/// the level that decides it lies in `[0, 1)`.
pub proof fn lemma_gate_is_determined(
    first: bool,
    second: bool,
    cell_x: i32,
    cell_y: i32,
    seed: Fixed,
    threshold: Fixed,
)
    requires
        first == is_lit(cell_x, cell_y, seed, threshold),
        second == is_lit(cell_x, cell_y, seed, threshold),
    ensures
        first == second,
        0 <= emission_level(cell_x, cell_y, seed) < ONE,
{
}

/// A threshold of one, or of the largest fraction below it, lights every
/// room, and one below zero none.
pub proof fn lemma_threshold_extremes(cell_x: i32, cell_y: i32, seed: Fixed, threshold: Fixed)
    ensures
        threshold@ >= ONE - 1 ==> is_lit(cell_x, cell_y, seed, threshold),
        threshold@ < 0 ==> !is_lit(cell_x, cell_y, seed, threshold),
{
}

/// A room that is lit stays lit when the threshold is raised.
pub proof fn lemma_gate_monotone(cell_x: i32, cell_y: i32, seed: Fixed, low: Fixed, high: Fixed)
    requires
        low@ <= high@,
        is_lit(cell_x, cell_y, seed, low),
    ensures
        is_lit(cell_x, cell_y, seed, high),
{
}

/// A dark room adds nothing: the fragment keeps the colour of its lit base.
pub proof fn lemma_dark_room_adds_nothing(emissive: Fixed, intensity: Fixed, base: Fixed)
    ensures
        gated(emissive, false, intensity) == 0,
        saturated(base@ + gated(emissive, false, intensity)) == base@,
{
}

} // verus!
