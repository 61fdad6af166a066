//! A seeded hash of a room's index: the one source of variety between rooms.

use vstd::prelude::*;

verus! {

/// Tells the choice of a room's look apart from other uses of the hash.
pub const ROOM_SALT: u32 = 0x9e37_79b9;

/// Tells the choice of lit rooms apart from other uses of the hash.
pub const EMISSION_SALT: u32 = 0x85eb_ca6b;

/// One round of mixing: two multiplications by odd constants, each wrapping
/// round, with the upper bits folded into the lower before, between and
/// after them.
pub open spec fn mixed(x: u32) -> u32 {
    let a = x ^ (x >> 16);
    let b = a.wrapping_mul(0x7feb_352d);
    let c = b ^ (b >> 15);
    let d = c.wrapping_mul(0x846c_a68b);
    d ^ (d >> 16)
}

/// A signed number as a word: the numbers in their order, from zero up.
pub open spec fn key(v: i32) -> u32 {
    (v + 0x8000_0000) as u32
}

/// The hash of the room `(cell_x, cell_y)` under a seed, for the use that
/// `salt` names.
pub open spec fn cell_hash(cell_x: i32, cell_y: i32, seed: i32, salt: u32) -> u32 {
    mixed(mixed(mixed(key(seed) ^ salt) ^ key(cell_x)) ^ key(cell_y))
}

/// The upper half of a hash as a raw fraction in `[0, 1)`.
pub open spec fn upper_fraction(h: u32) -> int {
    h as int / 0x1_0000
}

/// The lower half of a hash as a raw fraction in `[0, 1)`.
pub open spec fn lower_fraction(h: u32) -> int {
    h as int % 0x1_0000
}

/// One round of mixing of a word.
pub fn mix(x: u32) -> (r: u32)
    ensures
        r == mixed(x),
{
    let a: u32 = x ^ (x >> 16);
    let b: u32 = a.wrapping_mul(0x7feb_352d);
    let c: u32 = b ^ (b >> 15);
    let d: u32 = c.wrapping_mul(0x846c_a68b);
    d ^ (d >> 16)
}

fn key_of(v: i32) -> (k: u32)
    ensures
        k == key(v),
{
    ((v as i64) + 0x8000_0000) as u32
}

/// Hashes a room's index under a seed. The result depends on nothing but the
/// four arguments.
pub fn hash_cell(cell_x: i32, cell_y: i32, seed: i32, salt: u32) -> (h: u32)
    ensures
        h == cell_hash(cell_x, cell_y, seed, salt),
{
    let h0: u32 = mix(key_of(seed) ^ salt);
    let h1: u32 = mix(h0 ^ key_of(cell_x));
    mix(h1 ^ key_of(cell_y))
}

} // verus!
