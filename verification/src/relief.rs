//! Relief: a room whose inside is not an empty box but a surface, stored in
//! a depth map that is laid out as the atlas is. The view ray is followed in
//! steps from the surface to where it would leave the box, and stopped where
//! it first goes under the stored surface.

use crate::atlas::{atlas_coord, atlas_uv, count_of};
use crate::fixed::{
    clamped, floor_div, lemma_quotient_bounds, Fixed, FixedVec2, FixedVec3, ONE,
};
use crate::material::FakeInteriorMaterialUniform;
use crate::parallax::{room_depth, BoxHit, ExitFace};
use crate::shader::{is_room_sample, lemma_sample_unique, room_sample, RoomSample};
use vstd::prelude::*;

verus! {

/// The value of a texel that lies as deep as the room is.
pub const FULL_DEPTH: u16 = 0xffff;

/// No binary search takes more steps than this.
pub const MAX_BINARY_STEPS: u8 = 8;

/// A grid of depths, row by row, each from `0`, at the surface, to
/// `FULL_DEPTH`, at the back wall.
pub struct DepthMap {
    width: u16,
    height: u16,
    texels: Vec<u16>,
}

/// The index of the texel, of `n` along an axis, that covers the raw
/// coordinate `c`. The far edge belongs to the last texel, and what lies
/// outside `[0, 1]` to the texel at the nearer edge.
pub open spec fn texel_index(c: int, n: int) -> int {
    let i = (clamped(c, 0, ONE as int) * n) / (ONE as int);
    if i >= n {
        n - 1
    } else {
        i
    }
}

/// The point reached after `k` of `m` equal steps from `a` to `b`, rounded
/// down.
pub open spec fn along(a: int, b: int, k: int, m: int) -> int {
    a + ((b - a) * k) / m
}

/// Two to the power `b`.
pub open spec fn doubled(b: nat) -> int
    decreases b,
{
    if b == 0 {
        1
    } else {
        2 * doubled((b - 1) as nat)
    }
}

/// The number of linear steps taken for a requested number: at least one.
pub open spec fn linear_count(requested: u8) -> int {
    if requested == 0 {
        1
    } else {
        requested as int
    }
}

/// The number of binary steps taken for a requested number: at most
/// `MAX_BINARY_STEPS`.
pub open spec fn binary_count(requested: u8) -> nat {
    if requested > MAX_BINARY_STEPS {
        MAX_BINARY_STEPS as nat
    } else {
        requested as nat
    }
}

impl DepthMap {
    #[verifier::type_invariant]
    spec fn well_formed(self) -> bool {
        &&& self.width >= 1
        &&& self.height >= 1
        &&& self.texels@.len() == self.width * self.height
    }

    /// The number of texels in a row.
    pub closed spec fn cols(&self) -> int {
        self.width as int
    }

    /// The number of rows.
    pub closed spec fn rows(&self) -> int {
        self.height as int
    }

    /// The texels, row by row.
    pub closed spec fn texels(&self) -> Seq<u16> {
        self.texels@
    }

    /// The stored depth at a raw coordinate of the atlas: that of the texel
    /// which covers it.
    pub open spec fn depth_at(&self, x: int, y: int) -> int {
        self.texels()[texel_index(y, self.rows()) * self.cols() + texel_index(x, self.cols())] as int
    }

    /// A map of `width` by `height` texels, where there are that many and at
    /// least one.
    pub fn new(width: u16, height: u16, texels: Vec<u16>) -> (r: Option<DepthMap>)
        ensures
            r is Some <==> width >= 1 && height >= 1 && texels@.len() == width * height,
            r matches Some(m) ==> m.cols() == width && m.rows() == height && m.texels() == texels@,
    {
        assert(width * height <= 0xfffe_0001) by (nonlinear_arith)
            requires
                0 <= width <= 0xffff,
                0 <= height <= 0xffff,
        ;
        if width >= 1 && height >= 1 && texels.len() as u64 == (width as u64) * (height as u64) {
            Some(DepthMap { width, height, texels })
        } else {
            None
        }
    }

    /// The number of texels in a row.
    pub fn width(&self) -> (w: u16)
        ensures
            w == self.cols(),
            w >= 1,
    {
        proof {
            use_type_invariant(self);
        }
        self.width
    }

    /// The number of rows.
    pub fn height(&self) -> (h: u16)
        ensures
            h == self.rows(),
            h >= 1,
    {
        proof {
            use_type_invariant(self);
        }
        self.height
    }

    /// The stored depth at a coordinate of the atlas.
    pub fn fetch(&self, uv: FixedVec2) -> (t: u16)
        ensures
            t == self.depth_at(uv.x@, uv.y@),
    {
        proof {
            use_type_invariant(self);
        }
        let ix: u32 = texel_of(uv.x, self.width);
        let iy: u32 = texel_of(uv.y, self.height);
        assert(iy * self.width + ix < self.width * self.height) by (nonlinear_arith)
            requires
                0 <= ix < self.width,
                0 <= iy < self.height,
        ;
        assert(self.width * self.height <= 0xfffe_0001) by (nonlinear_arith)
            requires
                0 <= self.width <= 0xffff,
                0 <= self.height <= 0xffff,
        ;
        let at: usize = (iy as usize) * (self.width as usize) + (ix as usize);
        self.texels[at]
    }
}

fn texel_of(c: Fixed, n: u16) -> (i: u32)
    requires
        n >= 1,
    ensures
        i == texel_index(c@, n as int),
        i < n,
{
    let within: i32 = c.clamp_unit().raw;
    assert(0 <= within * n <= 0xffff_0000) by (nonlinear_arith)
        requires
            0 <= within <= 0x1_0000,
            1 <= n <= 0xffff,
    ;
    let i: u32 = ((within as u32) * (n as u32)) / (ONE as u32);
    if i >= n as u32 {
        n as u32 - 1
    } else {
        i
    }
}

/// A point on the way from `a` to `b` lies between them, the first at `a`
/// and the last at `b`.
pub proof fn lemma_along_between(a: int, b: int, k: int, m: int)
    requires
        0 <= k <= m,
        0 < m,
    ensures
        a <= b ==> a <= along(a, b, k, m) <= b,
        b <= a ==> b <= along(a, b, k, m) <= a,
        along(a, b, 0, m) == a,
        along(a, b, m, m) == b,
{
    let x = (b - a) * k;
    if a <= b {
        assert(0 * m <= x <= (b - a) * m) by (nonlinear_arith)
            requires
                x == (b - a) * k,
                0 <= k <= m,
                a <= b,
        ;
        lemma_quotient_bounds(x, m, 0);
        lemma_quotient_bounds(x, m, b - a);
    }
    if b <= a {
        assert((b - a) * m <= x <= 0 * m) by (nonlinear_arith)
            requires
                x == (b - a) * k,
                0 <= k <= m,
                b <= a,
        ;
        lemma_quotient_bounds(x, m, 0);
        lemma_quotient_bounds(x, m, b - a);
    }
    assert((b - a) * 0 == 0);
    assert(0int / m == 0) by (nonlinear_arith)
        requires
            m > 0,
    ;
    vstd::arithmetic::div_mod::lemma_div_multiples_vanish(b - a, m);
    assert((b - a) * m == m * (b - a)) by (nonlinear_arith);
}

/// Where the view ray of a sample is, across the cell, after `k` of `m`
/// steps from the surface to where it leaves the box.
pub open spec fn ray_x(s: RoomSample, k: int, m: int) -> int {
    along(s.cell.local.x@, s.hit.uv.x@, k, m)
}

/// Where the view ray is, up the cell, after `k` of `m` steps.
pub open spec fn ray_y(s: RoomSample, k: int, m: int) -> int {
    along(s.cell.local.y@, s.hit.uv.y@, k, m)
}

/// How deep the view ray is after `k` of `m` steps.
pub open spec fn ray_z(s: RoomSample, k: int, m: int) -> int {
    along(0, s.hit.depth@, k, m)
}

/// How deep the stored surface lies under the point that the view ray has
/// reached after `k` of `m` steps: the share of the room's depth that the
/// map holds at the atlas coordinate of that point.
pub open spec fn surface_at(
    map: DepthMap,
    s: RoomSample,
    p: FakeInteriorMaterialUniform,
    k: int,
    m: int,
) -> int {
    (map.depth_at(
        atlas_coord(s.atlas_cell.col as int, ray_x(s, k, m), count_of(p.atlas_rooms.x@)),
        atlas_coord(s.atlas_cell.row as int, ray_y(s, k, m), count_of(p.atlas_rooms.y@)),
    ) * room_depth(p.depth)) / (FULL_DEPTH as int)
}

/// Whether the view ray has reached the stored surface after `k` of `m`
/// steps.
pub open spec fn under(
    map: DepthMap,
    s: RoomSample,
    p: FakeInteriorMaterialUniform,
    k: int,
    m: int,
) -> bool {
    ray_z(s, k, m) >= surface_at(map, s, p, k, m)
}

/// The first of the linear steps `i` to `n`, each `w` fine steps long, after
/// which the ray has reached the surface; `n + 1` where there is none. Step
/// `0` is the start, on the surface of the wall.
pub open spec fn first_under(
    map: DepthMap,
    s: RoomSample,
    p: FakeInteriorMaterialUniform,
    i: int,
    n: int,
    w: int,
) -> int
    decreases n + 1 - i,
{
    if i > n {
        n + 1
    } else if under(map, s, p, i * w, n * w) {
        i
    } else {
        first_under(map, s, p, i + 1, n, w)
    }
}

/// The fine step that a binary search of `steps` steps ends on, between a
/// step `lo` and a step `hi` at which the ray has reached the surface.
pub open spec fn bisect(
    map: DepthMap,
    s: RoomSample,
    p: FakeInteriorMaterialUniform,
    lo: int,
    hi: int,
    m: int,
    steps: nat,
) -> int
    decreases steps,
{
    if steps == 0 {
        hi
    } else {
        let mid = (lo + hi) / 2;
        if under(map, s, p, mid, m) {
            bisect(map, s, p, lo, mid, m, (steps - 1) as nat)
        } else {
            bisect(map, s, p, mid, hi, m, (steps - 1) as nat)
        }
    }
}

/// Whether the ray reaches the stored surface before it leaves the box, as
/// far as `n` linear steps show.
pub open spec fn meets_relief(
    map: DepthMap,
    s: RoomSample,
    p: FakeInteriorMaterialUniform,
    n: int,
    b: nat,
) -> bool {
    room_depth(p.depth) != 0 && first_under(map, s, p, 0, n, doubled(b)) <= n
}

/// The fine step, of `n * doubled(b)`, on which the search for the surface
/// ends: where a linear step finds the ray under the surface, `b` binary
/// steps within that linear step, or the start where the ray is under the
/// surface from the start; else the last, where the ray leaves the box.
pub open spec fn refined_step(
    map: DepthMap,
    s: RoomSample,
    p: FakeInteriorMaterialUniform,
    n: int,
    b: nat,
) -> int {
    let w = doubled(b);
    let j = first_under(map, s, p, 0, n, w);
    if !meets_relief(map, s, p, n, b) {
        n * w
    } else if j == 0 {
        0
    } else {
        bisect(map, s, p, (j - 1) * w, j * w, n * w, b)
    }
}

/// Whether `r` is the sample `s` after the search for the stored surface:
/// the same room, design and light; the point that the ray has reached on
/// the step where the search ends; the atlas coordinate of that point; and
/// the face `Relief` where the surface was met.
pub open spec fn is_refined(
    r: RoomSample,
    s: RoomSample,
    p: FakeInteriorMaterialUniform,
    map: DepthMap,
    linear_steps: u8,
    binary_steps: u8,
) -> bool {
    let n = linear_count(linear_steps);
    let b = binary_count(binary_steps);
    let m = n * doubled(b);
    let k = refined_step(map, s, p, n, b);
    &&& r.cell == s.cell
    &&& r.atlas_cell == s.atlas_cell
    &&& r.lit == s.lit
    &&& r.hit.uv.x@ == ray_x(s, k, m)
    &&& r.hit.uv.y@ == ray_y(s, k, m)
    &&& r.hit.depth@ == ray_z(s, k, m)
    &&& r.hit.face == if meets_relief(map, s, p, n, b) {
        ExitFace::Relief
    } else {
        s.hit.face
    }
    &&& r.atlas_uv.x@ == atlas_coord(
        s.atlas_cell.col as int,
        r.hit.uv.x@,
        count_of(p.atlas_rooms.x@),
    )
    &&& r.atlas_uv.y@ == atlas_coord(
        s.atlas_cell.row as int,
        r.hit.uv.y@,
        count_of(p.atlas_rooms.y@),
    )
}

/// A point on the way from `a` to `b`.
fn step_along(a: i32, b: i32, k: u32, m: u32) -> (r: i32)
    requires
        0 <= a <= ONE,
        0 <= b <= ONE,
        k <= m,
        0 < m <= 0xff00,
    ensures
        r == along(a as int, b as int, k as int, m as int),
        0 <= r <= ONE,
{
    proof {
        lemma_along_between(a as int, b as int, k as int, m as int);
    }
    assert(-0xff00_0000 <= (b - a) * k <= 0xff00_0000) by (nonlinear_arith)
        requires
            -0x1_0000 <= b - a <= 0x1_0000,
            0 <= k <= 0xff00,
    ;
    let moved: i64 = floor_div(((b - a) as i64) * (k as i64), m as i64);
    (a as i64 + moved) as i32
}

/// The point that the view ray has reached after `k` of `m` steps, and
/// whether it has reached the stored surface there.
fn probe(
    map: &DepthMap,
    sample: &RoomSample,
    params: &FakeInteriorMaterialUniform,
    k: u32,
    m: u32,
) -> (r: (bool, FixedVec2, Fixed))
    requires
        sample.fits(*params),
        k <= m,
        0 < m <= 0xff00,
    ensures
        r.0 == under(*map, *sample, *params, k as int, m as int),
        r.1.x@ == ray_x(*sample, k as int, m as int),
        r.1.y@ == ray_y(*sample, k as int, m as int),
        r.2@ == ray_z(*sample, k as int, m as int),
        r.1.x.in_unit_closed(),
        r.1.y.in_unit_closed(),
        0 <= r.2@ <= room_depth(params.depth),
{
    proof {
        lemma_along_between(0, sample.hit.depth@, k as int, m as int);
    }
    let at = FixedVec2 {
        x: Fixed { raw: step_along(sample.cell.local.x.raw, sample.hit.uv.x.raw, k, m) },
        y: Fixed { raw: step_along(sample.cell.local.y.raw, sample.hit.uv.y.raw, k, m) },
    };
    let z: i32 = step_along(0, sample.hit.depth.raw, k, m);
    let stored: u16 = map.fetch(atlas_uv(sample.atlas_cell, at, params.atlas_rooms));
    let d: i32 = params.depth.clamp_unit().raw;
    assert(0 <= stored * d <= 0xffff_0000) by (nonlinear_arith)
        requires
            0 <= stored <= 0xffff,
            0 <= d <= 0x1_0000,
    ;
    let surface: i64 = floor_div((stored as i64) * (d as i64), FULL_DEPTH as i64);
    (z as i64 >= surface, at, Fixed { raw: z })
}

/// Two to the power `b`.
fn double_times(b: u8) -> (w: u32)
    requires
        b <= MAX_BINARY_STEPS,
    ensures
        w == doubled(b as nat),
        1 <= w <= 256,
{
    let mut w: u32 = 1;
    let mut i: u8 = 0;
    while i < b
        invariant
            i <= b <= MAX_BINARY_STEPS,
            w == doubled(i as nat),
        decreases b - i,
    {
        proof {
            lemma_doubled_bounded(i as nat);
        }
        w = w * 2;
        i = i + 1;
    }
    proof {
        lemma_doubled_bounded(b as nat);
    }
    w
}

/// The powers of two up to the eighth.
proof fn lemma_doubled_bounded(b: nat)
    requires
        b <= MAX_BINARY_STEPS,
    ensures
        1 <= doubled(b) <= 256,
        b < MAX_BINARY_STEPS ==> doubled(b) <= 128,
{
    reveal_with_fuel(doubled, 10);
}

/// Searches the way of the view ray through the room for the stored
/// surface: `linear_steps` equal steps, at least one, from the surface to
/// where the ray leaves the box, until one ends under the stored surface;
/// then `binary_steps` halvings, at most `MAX_BINARY_STEPS`, of that step.
/// Where no step ends under the surface, and in a room without depth, the
/// ray goes on to where it leaves the box.
pub fn refine(
    sample: &RoomSample,
    params: &FakeInteriorMaterialUniform,
    map: &DepthMap,
    linear_steps: u8,
    binary_steps: u8,
) -> (r: RoomSample)
    requires
        sample.fits(*params),
    ensures
        is_refined(r, *sample, *params, *map, linear_steps, binary_steps),
        r.fits(*params),
{
    let n: u32 = if linear_steps == 0 {
        1
    } else {
        linear_steps as u32
    };
    let b: u8 = if binary_steps > MAX_BINARY_STEPS {
        MAX_BINARY_STEPS
    } else {
        binary_steps
    };
    let w: u32 = double_times(b);
    assert(0 < n * w <= 0xff00) by (nonlinear_arith)
        requires
            1 <= n <= 255,
            1 <= w <= 256,
    ;
    let m: u32 = n * w;
    proof {
        lemma_along_between(sample.cell.local.x@, sample.hit.uv.x@, m as int, m as int);
        lemma_along_between(sample.cell.local.y@, sample.hit.uv.y@, m as int, m as int);
        lemma_along_between(0, sample.hit.depth@, m as int, m as int);
    }
    let unmet = RoomSample {
        cell: sample.cell,
        atlas_cell: sample.atlas_cell,
        hit: sample.hit,
        atlas_uv: atlas_uv(sample.atlas_cell, sample.hit.uv, params.atlas_rooms),
        lit: sample.lit,
    };
    if params.depth.clamp_unit().raw == 0 {
        return unmet;
    }
    let mut i: u32 = 0;
    while i <= n
        invariant_except_break
            first_under(*map, *sample, *params, 0, n as int, w as int) == first_under(
                *map,
                *sample,
                *params,
                i as int,
                n as int,
                w as int,
            ),
        invariant
            0 <= i <= n + 1,
            1 <= n <= 255,
            1 <= w <= 256,
            m == n * w,
            0 < m <= 0xff00,
            sample.fits(*params),
        ensures
            first_under(*map, *sample, *params, 0, n as int, w as int) == i,
        decreases n + 1 - i,
    {
        assert(i * w <= n * w) by (nonlinear_arith)
            requires
                i <= n,
                0 <= w,
        ;
        if probe(map, sample, params, i * w, m).0 {
            break ;
        }
        i = i + 1;
    }
    if i > n {
        return unmet;
    }
    assert(0 * w == 0 && i * w <= n * w) by (nonlinear_arith)
        requires
            0 <= i <= n,
            0 <= w,
    ;
    let mut lo: u32 = 0;
    let mut hi: u32 = 0;
    let mut left: u8 = 0;
    if i > 0 {
        assert(0 <= (i - 1) * w <= i * w) by (nonlinear_arith)
            requires
                1 <= i,
                0 <= w,
        ;
        lo = (i - 1) * w;
        hi = i * w;
        left = b;
    }
    while left > 0
        invariant
            0 <= lo <= hi <= m,
            0 < m <= 0xff00,
            sample.fits(*params),
            bisect(*map, *sample, *params, lo as int, hi as int, m as int, left as nat)
                == refined_step(*map, *sample, *params, n as int, b as nat),
        decreases left,
    {
        let mid: u32 = (lo + hi) / 2;
        if probe(map, sample, params, mid, m).0 {
            hi = mid;
        } else {
            lo = mid;
        }
        left = left - 1;
    }
    let found = probe(map, sample, params, hi, m);
    let at = atlas_uv(sample.atlas_cell, found.1, params.atlas_rooms);
    RoomSample {
        cell: sample.cell,
        atlas_cell: sample.atlas_cell,
        hit: BoxHit { uv: found.1, depth: found.2, face: ExitFace::Relief },
        atlas_uv: at,
        lit: sample.lit,
    }
}

/// Finds what `room_sample` finds and, where a depth map is supplied,
/// searches the way of the view ray for the stored surface as `refine` does.
pub fn room_sample_with_relief(
    uv: FixedVec2,
    tangent_view_dir: FixedVec3,
    params: &FakeInteriorMaterialUniform,
    depth_map: Option<&DepthMap>,
    linear_steps: u8,
    binary_steps: u8,
) -> (r: RoomSample)
    ensures
        r.fits(*params),
        depth_map is None ==> is_room_sample(r, uv, tangent_view_dir, *params),
        depth_map matches Some(map) ==> forall|s: RoomSample| #[trigger]
            is_room_sample(s, uv, tangent_view_dir, *params) ==> is_refined(
                r,
                s,
                *params,
                *map,
                linear_steps,
                binary_steps,
            ),
{
    let s = room_sample(uv, tangent_view_dir, params);
    match depth_map {
        None => s,
        Some(map) => {
            let r = refine(&s, params, map, linear_steps, binary_steps);
            assert forall|other: RoomSample| #[trigger]
                is_room_sample(other, uv, tangent_view_dir, *params) implies is_refined(
                r,
                other,
                *params,
                *map,
                linear_steps,
                binary_steps,
            ) by {
                lemma_sample_unique(other, s, uv, tangent_view_dir, *params);
            }
            r
        },
    }
}

/// The linear search finds the first step that ends under the surface: the
/// steps before it end above.
pub proof fn lemma_first_under(
    map: DepthMap,
    s: RoomSample,
    p: FakeInteriorMaterialUniform,
    i: int,
    n: int,
    w: int,
    t: int,
)
    requires
        i <= n + 1,
    ensures
        i <= first_under(map, s, p, i, n, w) <= n + 1,
        first_under(map, s, p, i, n, w) <= n ==> under(
            map,
            s,
            p,
            first_under(map, s, p, i, n, w) * w,
            n * w,
        ),
        i <= t < first_under(map, s, p, i, n, w) ==> !under(map, s, p, t * w, n * w),
    decreases n + 1 - i,
{
    if i <= n && !under(map, s, p, i * w, n * w) {
        lemma_first_under(map, s, p, i + 1, n, w, t);
    }
}

/// The binary search ends on a step where the ray is under the surface, and
/// the step before that one is either the start of the search or a step
/// where the ray is above the surface.
pub proof fn lemma_bisect(
    map: DepthMap,
    s: RoomSample,
    p: FakeInteriorMaterialUniform,
    lo: int,
    hi: int,
    m: int,
    steps: nat,
)
    requires
        hi - lo == doubled(steps),
        under(map, s, p, hi, m),
    ensures
        lo < bisect(map, s, p, lo, hi, m, steps) <= hi,
        under(map, s, p, bisect(map, s, p, lo, hi, m, steps), m),
        bisect(map, s, p, lo, hi, m, steps) - 1 == lo || !under(
            map,
            s,
            p,
            bisect(map, s, p, lo, hi, m, steps) - 1,
            m,
        ),
    decreases steps,
{
    if steps > 0 {
        let mid = (lo + hi) / 2;
        assert(mid == lo + doubled((steps - 1) as nat));
        if under(map, s, p, mid, m) {
            lemma_bisect(map, s, p, lo, mid, m, (steps - 1) as nat);
        } else {
            lemma_bisect(map, s, p, mid, hi, m, (steps - 1) as nat);
        }
    }
}

/// Where the search meets the surface, it ends on a crossing: a step on
/// which the ray is under the stored surface, and which is the start or
/// follows a step on which the ray is above it.
pub proof fn lemma_refined_is_crossing(
    map: DepthMap,
    s: RoomSample,
    p: FakeInteriorMaterialUniform,
    n: int,
    b: nat,
)
    requires
        1 <= n,
        meets_relief(map, s, p, n, b),
    ensures
        ({
            let m = n * doubled(b);
            let k = refined_step(map, s, p, n, b);
            &&& 0 <= k <= m
            &&& under(map, s, p, k, m)
            &&& k == 0 || !under(map, s, p, k - 1, m)
        }),
{
    let w = doubled(b);
    let m = n * w;
    let j = first_under(map, s, p, 0, n, w);
    lemma_first_under(map, s, p, 0, n, w, j - 1);
    lemma_doubled_positive(b);
    assert(0 * w == 0);
    if j > 0 {
        assert(j * w - (j - 1) * w == w) by (nonlinear_arith);
        lemma_bisect(map, s, p, (j - 1) * w, j * w, m, b);
        assert(0 <= (j - 1) * w && j * w <= n * w) by (nonlinear_arith)
            requires
                1 <= j <= n,
                1 <= w,
        ;
    }
}

/// A power of two is at least one.
pub proof fn lemma_doubled_positive(b: nat)
    ensures
        doubled(b) >= 1,
    decreases b,
{
    if b > 0 {
        lemma_doubled_positive((b - 1) as nat);
    }
}

/// The search never leaves the way of the ray: the point it ends on lies
/// between the point of the fragment and the point where the ray leaves the
/// box, and no deeper than that.
pub proof fn lemma_refined_on_ray(
    r: RoomSample,
    s: RoomSample,
    p: FakeInteriorMaterialUniform,
    map: DepthMap,
    linear_steps: u8,
    binary_steps: u8,
)
    requires
        is_refined(r, s, p, map, linear_steps, binary_steps),
        0 <= s.hit.depth@,
    ensures
        s.cell.local.x@ <= s.hit.uv.x@ ==> s.cell.local.x@ <= r.hit.uv.x@ <= s.hit.uv.x@,
        s.cell.local.x@ >= s.hit.uv.x@ ==> s.cell.local.x@ >= r.hit.uv.x@ >= s.hit.uv.x@,
        s.cell.local.y@ <= s.hit.uv.y@ ==> s.cell.local.y@ <= r.hit.uv.y@ <= s.hit.uv.y@,
        s.cell.local.y@ >= s.hit.uv.y@ ==> s.cell.local.y@ >= r.hit.uv.y@ >= s.hit.uv.y@,
        0 <= r.hit.depth@ <= s.hit.depth@,
{
    let n = linear_count(linear_steps);
    let b = binary_count(binary_steps);
    let m = n * doubled(b);
    let k = refined_step(map, s, p, n, b);
    lemma_doubled_positive(b);
    assert(m >= 1) by (nonlinear_arith)
        requires
            m == n * doubled(b),
            n >= 1,
            doubled(b) >= 1,
    ;
    if meets_relief(map, s, p, n, b) {
        lemma_refined_is_crossing(map, s, p, n, b);
    }
    lemma_along_between(s.cell.local.x@, s.hit.uv.x@, k, m);
    lemma_along_between(s.cell.local.y@, s.hit.uv.y@, k, m);
    lemma_along_between(0, s.hit.depth@, k, m);
}

/// In a room without depth no surface is met.
pub proof fn lemma_flat_room_has_no_relief(
    map: DepthMap,
    s: RoomSample,
    p: FakeInteriorMaterialUniform,
    n: int,
    b: nat,
)
    requires
        p.depth@ <= 0,
    ensures
        !meets_relief(map, s, p, n, b),
{
}

/// Where the search does not meet the surface, it changes nothing.
pub proof fn lemma_unmet_relief_keeps_sample(
    r: RoomSample,
    s: RoomSample,
    p: FakeInteriorMaterialUniform,
    map: DepthMap,
    linear_steps: u8,
    binary_steps: u8,
)
    requires
        is_refined(r, s, p, map, linear_steps, binary_steps),
        !meets_relief(map, s, p, linear_count(linear_steps), binary_count(binary_steps)),
        s.atlas_uv.x@ == atlas_coord(
            s.atlas_cell.col as int,
            s.hit.uv.x@,
            count_of(p.atlas_rooms.x@),
        ),
        s.atlas_uv.y@ == atlas_coord(
            s.atlas_cell.row as int,
            s.hit.uv.y@,
            count_of(p.atlas_rooms.y@),
        ),
    ensures
        r == s,
{
    let n = linear_count(linear_steps);
    let b = binary_count(binary_steps);
    let m = n * doubled(b);
    lemma_doubled_positive(b);
    assert(m >= 1) by (nonlinear_arith)
        requires
            m == n * doubled(b),
            n >= 1,
            doubled(b) >= 1,
    ;
    lemma_along_between(s.cell.local.x@, s.hit.uv.x@, m, m);
    lemma_along_between(s.cell.local.y@, s.hit.uv.y@, m, m);
    lemma_along_between(0, s.hit.depth@, m, m);
}

} // verus!
