//! Normal mapping: the normal that the atlas holds for a point of a room,
//! brought from the texture into the frame of the surface.

use crate::emission::Rgb;
use crate::fixed::{clamped, saturated, Fixed, FixedVec3, ONE};
use vstd::prelude::*;

verus! {

/// A channel of a normal map as a coordinate of the normal: `[0, 1]` spread
/// over `[-1, 1]`, and what lies outside brought to the nearer end.
pub open spec fn unpacked(channel: int) -> int {
    2 * clamped(channel, 0, ONE as int) - ONE
}

/// One coordinate of a normal in the frame of the surface: the sum of the
/// frame's axes, each weighted by the normal's coordinate along it.
pub open spec fn framed(t: int, b: int, n: int, v: FixedVec3) -> int {
    saturated((t * v.x@ + b * v.y@ + n * v.z@) / (ONE as int))
}

fn unpack_channel(channel: Fixed) -> (r: Fixed)
    ensures
        r@ == unpacked(channel@),
        -ONE <= r@ <= ONE,
{
    Fixed { raw: 2 * channel.clamp_unit().raw - ONE }
}

/// The normal that a texel of a normal map stands for, in tangent space.
pub fn unpack_normal(texel: Rgb) -> (n: FixedVec3)
    ensures
        n.x@ == unpacked(texel.r@),
        n.y@ == unpacked(texel.g@),
        n.z@ == unpacked(texel.b@),
        -ONE <= n.x@ <= ONE,
        -ONE <= n.y@ <= ONE,
        -ONE <= n.z@ <= ONE,
{
    FixedVec3 {
        x: unpack_channel(texel.r),
        y: unpack_channel(texel.g),
        z: unpack_channel(texel.b),
    }
}

fn frame_axis(t: Fixed, b: Fixed, n: Fixed, v: FixedVec3) -> (r: Fixed)
    ensures
        r@ == framed(t@, b@, n@, v),
{
    assert(-0x4000_0000_0000_0000 <= t.raw * v.x.raw <= 0x4000_0000_0000_0000)
        by (nonlinear_arith)
        requires
            -0x8000_0000 <= t.raw <= 0x7fff_ffff,
            -0x8000_0000 <= v.x.raw <= 0x7fff_ffff,
    ;
    assert(-0x4000_0000_0000_0000 <= b.raw * v.y.raw <= 0x4000_0000_0000_0000)
        by (nonlinear_arith)
        requires
            -0x8000_0000 <= b.raw <= 0x7fff_ffff,
            -0x8000_0000 <= v.y.raw <= 0x7fff_ffff,
    ;
    assert(-0x4000_0000_0000_0000 <= n.raw * v.z.raw <= 0x4000_0000_0000_0000)
        by (nonlinear_arith)
        requires
            -0x8000_0000 <= n.raw <= 0x7fff_ffff,
            -0x8000_0000 <= v.z.raw <= 0x7fff_ffff,
    ;
    let along_t: i128 = (t.raw as i128) * (v.x.raw as i128);
    let along_b: i128 = (b.raw as i128) * (v.y.raw as i128);
    let along_n: i128 = (n.raw as i128) * (v.z.raw as i128);
    let q: i128 = (along_t + along_b + along_n).checked_div_euclid(ONE as i128).unwrap();
    if q < i32::MIN as i128 {
        Fixed { raw: i32::MIN }
    } else if q > i32::MAX as i128 {
        Fixed { raw: i32::MAX }
    } else {
        Fixed { raw: q as i32 }
    }
}

/// Brings a normal from tangent space into the frame that `tangent`,
/// `bitangent` and `normal` span. The result is not brought to length one:
/// that is left to whoever lights the fragment.
pub fn perturb_normal(
    v: FixedVec3,
    tangent: FixedVec3,
    bitangent: FixedVec3,
    normal: FixedVec3,
) -> (r: FixedVec3)
    ensures
        r.x@ == framed(tangent.x@, bitangent.x@, normal.x@, v),
        r.y@ == framed(tangent.y@, bitangent.y@, normal.y@, v),
        r.z@ == framed(tangent.z@, bitangent.z@, normal.z@, v),
{
    FixedVec3 {
        x: frame_axis(tangent.x, bitangent.x, normal.x, v),
        y: frame_axis(tangent.y, bitangent.y, normal.y, v),
        z: frame_axis(tangent.z, bitangent.z, normal.z, v),
    }
}

/// A normal map of one flat colour, half, half, one, leaves the normal of
/// the surface as it is.
pub proof fn lemma_flat_normal_map(t: int, b: int, n: int, texel: Rgb)
    requires
        2 * texel.r@ == ONE,
        2 * texel.g@ == ONE,
        texel.b@ >= ONE,
        i32::MIN <= n <= i32::MAX,
    ensures
        unpacked(texel.r@) == 0,
        unpacked(texel.g@) == 0,
        unpacked(texel.b@) == ONE,
        forall|v: FixedVec3|
            v.x@ == 0 && v.y@ == 0 && v.z@ == ONE ==> #[trigger] framed(t, b, n, v) == n,
{
    assert forall|v: FixedVec3| v.x@ == 0 && v.y@ == 0 && v.z@ == ONE implies #[trigger] framed(
        t,
        b,
        n,
        v,
    ) == n by {
        assert(t * v.x@ == 0 && b * v.y@ == 0) by (nonlinear_arith)
            requires
                v.x@ == 0,
                v.y@ == 0,
        ;
        assert(n * v.z@ == n * 65536);
    }
}

} // verus!
