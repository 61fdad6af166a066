//! The room behind the surface: an axis-aligned box one cell wide and high,
//! `depth` deep, which the view ray enters at the surface and leaves through
//! one of its faces.

use crate::fixed::{
    clamped, floor_div, lemma_quotient_bounds, product, Fixed, FixedVec2, FixedVec3, ONE,
    PRODUCT_LIMIT,
};
use vstd::prelude::*;

verus! {

/// The face through which a ray leaves the room.
#[derive(Clone, Copy, Debug, PartialEq, Eq, Structural)]
pub enum ExitFace {
    /// The wall opposite the surface.
    Back,
    /// The left or the right wall.
    Side,
    /// The floor or the ceiling.
    Level,
    /// The ray does not move, so it leaves nowhere.
    Nowhere,
    /// The ray has met a surface inside the room before it could leave.
    Relief,
}

/// Where a ray leaves the room.
#[derive(Clone, Copy, Debug, PartialEq, Eq, Structural)]
pub struct BoxHit {
    /// The point in the cell, seen from the front.
    pub uv: FixedVec2,
    /// How far behind the surface the point lies.
    pub depth: Fixed,
    pub face: ExitFace,
}

/// The distance from `l` to the wall that a coordinate moving at `e` heads for.
pub open spec fn wall_gap(l: int, e: int) -> int {
    if e > 0 {
        ONE - l
    } else {
        l
    }
}

/// The size of a velocity.
pub open spec fn speed(e: int) -> int {
    if e < 0 {
        -e
    } else {
        e
    }
}

/// Whether covering `g1` at speed `a1` takes no longer than covering `g2` at
/// speed `a2`. A speed of zero never arrives.
pub open spec fn no_later(g1: int, a1: int, g2: int, a2: int) -> bool {
    a1 > 0 && g1 * a2 <= g2 * a1
}

/// How far a coordinate of velocity `e` gets while another covers `g` at speed
/// `a`, rounded down.
pub open spec fn travel(g: int, a: int, e: int) -> int {
    (g * e) / a
}

/// How fast the ray moves across the cell along one axis of the surface: the
/// view direction stretched by the number of rooms along that axis.
pub open spec fn lateral_velocity(dir: Fixed, rooms: Fixed) -> int {
    product(dir@, rooms@)
}

/// How fast the ray moves into the room. A ray that points out of the surface
/// does not move inwards.
pub open spec fn inward_speed(dir_z: Fixed) -> int {
    if dir_z@ < 0 {
        -dir_z@
    } else {
        0
    }
}

/// The depth of the room, held within `[0, 1]`.
pub open spec fn room_depth(depth: Fixed) -> int {
    clamped(depth@, 0, ONE as int)
}

/// The face that a ray from `(lx, ly)` on the surface reaches first, moving
/// at `(ex, ey)` across the cell and at `ez` into a room `d` deep. Where two
/// faces are reached together the back wall goes before the side walls, and
/// these before floor and ceiling.
pub open spec fn exit_face(lx: int, ly: int, ex: int, ey: int, ez: int, d: int) -> ExitFace {
    let gx = wall_gap(lx, ex);
    let gy = wall_gap(ly, ey);
    let ax = speed(ex);
    let ay = speed(ey);
    if no_later(d, ez, gx, ax) && no_later(d, ez, gy, ay) {
        ExitFace::Back
    } else if no_later(gx, ax, gy, ay) && no_later(gx, ax, d, ez) {
        ExitFace::Side
    } else if no_later(gy, ay, gx, ax) && no_later(gy, ay, d, ez) {
        ExitFace::Level
    } else {
        ExitFace::Nowhere
    }
}

/// The distance that the ray covers along the axis of the face it leaves by.
pub open spec fn exit_gap(lx: int, ly: int, ex: int, ey: int, ez: int, d: int) -> int {
    match exit_face(lx, ly, ex, ey, ez, d) {
        ExitFace::Back => d,
        ExitFace::Side => wall_gap(lx, ex),
        ExitFace::Level => wall_gap(ly, ey),
        ExitFace::Nowhere | ExitFace::Relief => 0,
    }
}

/// The speed of the ray along the axis of the face it leaves by.
pub open spec fn exit_speed(lx: int, ly: int, ex: int, ey: int, ez: int, d: int) -> int {
    match exit_face(lx, ly, ex, ey, ez, d) {
        ExitFace::Back => ez,
        ExitFace::Side => speed(ex),
        ExitFace::Level => speed(ey),
        ExitFace::Nowhere | ExitFace::Relief => 1,
    }
}

/// The face by which the view ray leaves the room. A room without depth is
/// its own back wall.
pub open spec fn hit_face(
    local: FixedVec2,
    dir: FixedVec3,
    rooms: FixedVec2,
    depth: Fixed,
) -> ExitFace {
    if room_depth(depth) == 0 {
        ExitFace::Back
    } else {
        exit_face(
            local.x@,
            local.y@,
            lateral_velocity(dir.x, rooms.x),
            lateral_velocity(dir.y, rooms.y),
            inward_speed(dir.z),
            room_depth(depth),
        )
    }
}

/// How far the coordinate of velocity `e` has moved when the view ray leaves
/// the room. In a room without depth nothing moves.
pub open spec fn hit_shift(
    local: FixedVec2,
    dir: FixedVec3,
    rooms: FixedVec2,
    depth: Fixed,
    e: int,
) -> int {
    if room_depth(depth) == 0 {
        0
    } else {
        let lx = local.x@;
        let ly = local.y@;
        let ex = lateral_velocity(dir.x, rooms.x);
        let ey = lateral_velocity(dir.y, rooms.y);
        let ez = inward_speed(dir.z);
        let d = room_depth(depth);
        travel(exit_gap(lx, ly, ex, ey, ez, d), exit_speed(lx, ly, ex, ey, ez, d), e)
    }
}

/// A coordinate does not pass its wall before the ray has left the room:
/// while the ray covers `g` at speed `a`, a coordinate of velocity `e` whose
/// wall is `gap` away, and is reached no earlier, moves towards that wall and
/// by no more than `gap`.
pub proof fn lemma_travel_within_gap(g: int, a: int, gap: int, e: int)
    requires
        a > 0,
        g >= 0,
        gap >= 0,
        g * speed(e) <= gap * a,
    ensures
        e >= 0 ==> 0 <= travel(g, a, e) <= gap,
        e <= 0 ==> -gap <= travel(g, a, e) <= 0,
{
    let x = g * e;
    if e >= 0 {
        assert(0 <= x) by (nonlinear_arith)
            requires
                x == g * e,
                g >= 0,
                e >= 0,
        ;
        assert(0 == 0 * a);
        lemma_quotient_bounds(x, a, 0);
        lemma_quotient_bounds(x, a, gap);
    } else {
        assert(x <= 0 && x == -(g * (-e))) by (nonlinear_arith)
            requires
                x == g * e,
                g >= 0,
                e < 0,
        ;
        assert((-gap) * a == -(gap * a)) by (nonlinear_arith);
        assert(0 == 0 * a);
        lemma_quotient_bounds(x, a, 0);
        lemma_quotient_bounds(x, a, -gap);
    }
}

/// A coordinate that moves along the axis of the exit face ends on that face:
/// it covers exactly the gap.
pub proof fn lemma_travel_own_axis(g: int, e: int)
    requires
        e != 0,
    ensures
        e > 0 ==> travel(g, speed(e), e) == g,
        e < 0 ==> travel(g, speed(e), e) == -g,
{
    if e > 0 {
        vstd::arithmetic::div_mod::lemma_div_multiples_vanish(g, e);
        assert(g * e == e * g) by (nonlinear_arith);
    } else {
        vstd::arithmetic::div_mod::lemma_div_multiples_vanish(-g, -e);
        assert(g * e == (-e) * (-g)) by (nonlinear_arith);
    }
}

/// Whether one coordinate reaches its wall no later than another.
fn arrives_no_later(g1: i64, a1: i64, g2: i64, a2: i64) -> (b: bool)
    requires
        0 <= g1 <= ONE,
        0 <= g2 <= ONE,
        0 <= a1 <= PRODUCT_LIMIT,
        0 <= a2 <= PRODUCT_LIMIT,
    ensures
        b == no_later(g1 as int, a1 as int, g2 as int, a2 as int),
{
    assert(0 <= g1 * a2 <= 0x4000_0000_0000_0000) by (nonlinear_arith)
        requires
            0 <= g1 <= 0x1_0000,
            0 <= a2 <= 0x4000_0000_0000,
    ;
    assert(0 <= g2 * a1 <= 0x4000_0000_0000_0000) by (nonlinear_arith)
        requires
            0 <= g2 <= 0x1_0000,
            0 <= a1 <= 0x4000_0000_0000,
    ;
    a1 > 0 && g1 * a2 <= g2 * a1
}

/// How far a coordinate of velocity `e` gets while the ray covers `g` at
/// speed `a`.
fn travel_of(g: i64, a: i64, e: i64) -> (t: i64)
    requires
        0 <= g <= ONE,
        0 < a,
        -PRODUCT_LIMIT <= e <= PRODUCT_LIMIT,
    ensures
        t == travel(g as int, a as int, e as int),
{
    assert(-0x4000_0000_0000_0000 <= g * e <= 0x4000_0000_0000_0000) by (nonlinear_arith)
        requires
            0 <= g <= 0x1_0000,
            -0x4000_0000_0000 <= e <= 0x4000_0000_0000,
    ;
    floor_div(g * e, a)
}

/// Follows the view ray from a point of the cell to the face by which it
/// leaves the room, and returns that point of the face as seen from the
/// front. A room without depth returns the point it was given.
pub fn box_intersection(
    local: FixedVec2,
    tangent_view_dir: FixedVec3,
    rooms: FixedVec2,
    depth: Fixed,
) -> (hit: BoxHit)
    requires
        local.x.in_unit_closed(),
        local.y.in_unit_closed(),
    ensures
        hit.face == hit_face(local, tangent_view_dir, rooms, depth),
        hit.uv.x@ == local.x@ + hit_shift(
            local,
            tangent_view_dir,
            rooms,
            depth,
            lateral_velocity(tangent_view_dir.x, rooms.x),
        ),
        hit.uv.y@ == local.y@ + hit_shift(
            local,
            tangent_view_dir,
            rooms,
            depth,
            lateral_velocity(tangent_view_dir.y, rooms.y),
        ),
        hit.depth@ == hit_shift(
            local,
            tangent_view_dir,
            rooms,
            depth,
            inward_speed(tangent_view_dir.z),
        ),
        hit.uv.x.in_unit_closed(),
        hit.uv.y.in_unit_closed(),
        0 <= hit.depth@ <= room_depth(depth),
{
    let d: i64 = depth.clamp_unit().raw as i64;
    if d == 0 {
        return BoxHit { uv: local, depth: Fixed { raw: 0 }, face: ExitFace::Back };
    }
    let lx: i64 = local.x.raw as i64;
    let ly: i64 = local.y.raw as i64;
    let ex: i64 = tangent_view_dir.x.times(rooms.x);
    let ey: i64 = tangent_view_dir.y.times(rooms.y);
    let ez: i64 = if tangent_view_dir.z.raw < 0 {
        -(tangent_view_dir.z.raw as i64)
    } else {
        0
    };
    let gx: i64 = if ex > 0 {
        ONE as i64 - lx
    } else {
        lx
    };
    let gy: i64 = if ey > 0 {
        ONE as i64 - ly
    } else {
        ly
    };
    let ax: i64 = if ex < 0 {
        -ex
    } else {
        ex
    };
    let ay: i64 = if ey < 0 {
        -ey
    } else {
        ey
    };
    let face: ExitFace;
    let g: i64;
    let a: i64;
    if arrives_no_later(d, ez, gx, ax) && arrives_no_later(d, ez, gy, ay) {
        face = ExitFace::Back;
        g = d;
        a = ez;
    } else if arrives_no_later(gx, ax, gy, ay) && arrives_no_later(gx, ax, d, ez) {
        face = ExitFace::Side;
        g = gx;
        a = ax;
    } else if arrives_no_later(gy, ay, gx, ax) && arrives_no_later(gy, ay, d, ez) {
        face = ExitFace::Level;
        g = gy;
        a = ay;
    } else {
        face = ExitFace::Nowhere;
        g = 0;
        a = 1;
    }
    let sx: i64 = travel_of(g, a, ex);
    let sy: i64 = travel_of(g, a, ey);
    let sz: i64 = travel_of(g, a, ez);
    proof {
        lemma_exit_inside(lx as int, ly as int, ex as int, ey as int, ez as int, d as int);
    }
    BoxHit {
        uv: FixedVec2 { x: Fixed { raw: (lx + sx) as i32 }, y: Fixed { raw: (ly + sy) as i32 } },
        depth: Fixed { raw: sz as i32 },
        face,
    }
}

/// The point where a ray leaves the room lies on or inside the room: from a
/// start within the cell, each coordinate across the cell stays within
/// `[0, 1]` and moves the way its velocity points, and the depth reached lies
/// within `[0, d]`.
pub proof fn lemma_exit_inside(lx: int, ly: int, ex: int, ey: int, ez: int, d: int)
    requires
        0 <= lx <= ONE,
        0 <= ly <= ONE,
        0 <= ez,
        0 <= d,
    ensures
        ({
            let g = exit_gap(lx, ly, ex, ey, ez, d);
            let a = exit_speed(lx, ly, ex, ey, ez, d);
            &&& a > 0
            &&& g >= 0
            &&& 0 <= lx + travel(g, a, ex) <= ONE
            &&& 0 <= ly + travel(g, a, ey) <= ONE
            &&& 0 <= travel(g, a, ez) <= d
            &&& ex >= 0 ==> travel(g, a, ex) >= 0
            &&& ex <= 0 ==> travel(g, a, ex) <= 0
            &&& ey >= 0 ==> travel(g, a, ey) >= 0
            &&& ey <= 0 ==> travel(g, a, ey) <= 0
        }),
{
    let gx = wall_gap(lx, ex);
    let gy = wall_gap(ly, ey);
    let ax = speed(ex);
    let ay = speed(ey);
    let g = exit_gap(lx, ly, ex, ey, ez, d);
    let a = exit_speed(lx, ly, ex, ey, ez, d);
    match exit_face(lx, ly, ex, ey, ez, d) {
        ExitFace::Back => {
            lemma_travel_within_gap(d, ez, gx, ex);
            lemma_travel_within_gap(d, ez, gy, ey);
            lemma_travel_own_axis(d, ez);
        },
        ExitFace::Side => {
            lemma_travel_own_axis(gx, ex);
            lemma_travel_within_gap(gx, ax, gy, ey);
            lemma_travel_within_gap(gx, ax, d, ez);
        },
        ExitFace::Level => {
            lemma_travel_within_gap(gy, ay, gx, ex);
            lemma_travel_own_axis(gy, ey);
            lemma_travel_within_gap(gy, ay, d, ez);
        },
        ExitFace::Nowhere | ExitFace::Relief => {
            assert(0 * ex == 0 && 0 * ey == 0 && 0 * ez == 0);
        },
    }
}

/// A room without depth shows each point where it is: whatever the view
/// direction, nothing is shifted and the face is the back wall.
pub proof fn lemma_flat_room_keeps_point(
    local: FixedVec2,
    dir: FixedVec3,
    rooms: FixedVec2,
    depth: Fixed,
    e: int,
)
    requires
        depth@ <= 0,
    ensures
        hit_shift(local, dir, rooms, depth, e) == 0,
        hit_face(local, dir, rooms, depth) == ExitFace::Back,
{
}

/// Seen straight on, no point is shifted across the cell, however deep the
/// room is.
pub proof fn lemma_straight_view_keeps_point(
    local: FixedVec2,
    dir: FixedVec3,
    rooms: FixedVec2,
    depth: Fixed,
)
    requires
        local.x.in_unit_closed(),
        local.y.in_unit_closed(),
        dir.x@ == 0,
        dir.y@ == 0,
    ensures
        lateral_velocity(dir.x, rooms.x) == 0,
        lateral_velocity(dir.y, rooms.y) == 0,
        hit_shift(local, dir, rooms, depth, 0) == 0,
{
    assert(0 * rooms.x@ == 0 && 0 * rooms.y@ == 0);
    if room_depth(depth) != 0 {
        let ez = inward_speed(dir.z);
        let d = room_depth(depth);
        lemma_exit_inside(local.x@, local.y@, 0, 0, ez, d);
    }
}

/// The shift across the cell goes the way the view is tilted and never
/// leaves the cell, and the depth reached never exceeds that of the room.
pub proof fn lemma_shift_follows_tilt(
    local: FixedVec2,
    dir: FixedVec3,
    rooms: FixedVec2,
    depth: Fixed,
)
    requires
        local.x.in_unit_closed(),
        local.y.in_unit_closed(),
    ensures
        ({
            let ex = lateral_velocity(dir.x, rooms.x);
            let ey = lateral_velocity(dir.y, rooms.y);
            let sx = hit_shift(local, dir, rooms, depth, ex);
            let sy = hit_shift(local, dir, rooms, depth, ey);
            let sz = hit_shift(local, dir, rooms, depth, inward_speed(dir.z));
            &&& ex >= 0 ==> 0 <= sx <= ONE - local.x@
            &&& ex <= 0 ==> -local.x@ <= sx <= 0
            &&& ey >= 0 ==> 0 <= sy <= ONE - local.y@
            &&& ey <= 0 ==> -local.y@ <= sy <= 0
            &&& 0 <= sz <= room_depth(depth)
        }),
{
    if room_depth(depth) != 0 {
        lemma_exit_inside(
            local.x@,
            local.y@,
            lateral_velocity(dir.x, rooms.x),
            lateral_velocity(dir.y, rooms.y),
            inward_speed(dir.z),
            room_depth(depth),
        );
    }
}

/// The point where a ray leaves lies on the face it leaves by: at the full
/// depth for the back wall, and on the wall ahead for the others.
pub proof fn lemma_exit_on_face(lx: int, ly: int, ex: int, ey: int, ez: int, d: int)
    requires
        0 <= lx <= ONE,
        0 <= ly <= ONE,
        0 <= ez,
        0 <= d,
    ensures
        ({
            let g = exit_gap(lx, ly, ex, ey, ez, d);
            let a = exit_speed(lx, ly, ex, ey, ez, d);
            match exit_face(lx, ly, ex, ey, ez, d) {
                ExitFace::Back => travel(g, a, ez) == d,
                ExitFace::Side => lx + travel(g, a, ex) == if ex > 0 {
                    ONE as int
                } else {
                    0
                },
                ExitFace::Level => ly + travel(g, a, ey) == if ey > 0 {
                    ONE as int
                } else {
                    0
                },
                _ => travel(g, a, ex) == 0 && travel(g, a, ey) == 0 && travel(g, a, ez) == 0,
            }
        }),
{
    match exit_face(lx, ly, ex, ey, ez, d) {
        ExitFace::Back => {
            lemma_travel_own_axis(d, ez);
        },
        ExitFace::Side => {
            lemma_travel_own_axis(wall_gap(lx, ex), ex);
        },
        ExitFace::Level => {
            lemma_travel_own_axis(wall_gap(ly, ey), ey);
        },
        _ => {
            assert(0 * ex == 0 && 0 * ey == 0 && 0 * ez == 0);
        },
    }
}

/// The face by which a ray leaves is the nearest ahead: no coordinate that
/// moves reaches its own wall sooner than the ray reaches that face.
pub proof fn lemma_exit_is_nearest(lx: int, ly: int, ex: int, ey: int, ez: int, d: int)
    requires
        0 <= lx <= ONE,
        0 <= ly <= ONE,
        0 <= ez,
        0 <= d,
        exit_face(lx, ly, ex, ey, ez, d) != ExitFace::Nowhere,
    ensures
        ({
            let g = exit_gap(lx, ly, ex, ey, ez, d);
            let a = exit_speed(lx, ly, ex, ey, ez, d);
            &&& no_later(g, a, wall_gap(lx, ex), speed(ex))
            &&& no_later(g, a, wall_gap(ly, ey), speed(ey))
            &&& no_later(g, a, d, ez)
        }),
{
}

/// Where two faces are reached together, it does not matter for the point
/// which of them the ray is taken to leave by: every coordinate has moved as
/// far by the one account as by the other.
pub proof fn lemma_tie_same_point(g1: int, a1: int, g2: int, a2: int, e: int)
    requires
        no_later(g1, a1, g2, a2),
        no_later(g2, a2, g1, a1),
    ensures
        travel(g1, a1, e) == travel(g2, a2, e),
{
    let x1 = g1 * e;
    let x2 = g2 * e;
    let q = x1 / a1;
    vstd::arithmetic::div_mod::lemma_fundamental_div_mod(x1, a1);
    vstd::arithmetic::div_mod::lemma_mod_bound(x1, a1);
    assert(x1 * a2 == x2 * a1) by (nonlinear_arith)
        requires
            g1 * a2 == g2 * a1,
            x1 == g1 * e,
            x2 == g2 * e,
    ;
    assert(q * a1 <= x1 < (q + 1) * a1) by (nonlinear_arith)
        requires
            x1 == a1 * q + x1 % a1,
            0 <= x1 % a1 < a1,
    ;
    assert((q * a2) * a1 <= x2 * a1 < ((q + 1) * a2) * a1) by (nonlinear_arith)
        requires
            q * a1 <= x1 < (q + 1) * a1,
            x1 * a2 == x2 * a1,
            a2 > 0,
    ;
    assert(q * a2 <= x2 < (q + 1) * a2) by (nonlinear_arith)
        requires
            (q * a2) * a1 <= x2 * a1 < ((q + 1) * a2) * a1,
            a1 > 0,
    ;
    lemma_quotient_bounds(x2, a2, q);
    vstd::arithmetic::div_mod::lemma_fundamental_div_mod(x2, a2);
    vstd::arithmetic::div_mod::lemma_mod_bound(x2, a2);
    let q2 = x2 / a2;
    assert(q2 < q + 1) by (nonlinear_arith)
        requires
            x2 == a2 * q2 + x2 % a2,
            0 <= x2 % a2,
            x2 < (q + 1) * a2,
            a2 > 0,
    ;
}

/// Of three coordinates in motion, where the first reaches its wall later
/// than the second and the second later than the third, the first reaches it
/// later than the third.
proof fn lemma_later_chain(g1: int, a1: int, g2: int, a2: int, g3: int, a3: int)
    requires
        a1 > 0,
        a2 > 0,
        a3 > 0,
        g1 * a2 > g2 * a1,
        g2 * a3 > g3 * a2,
    ensures
        g1 * a3 > g3 * a1,
{
    assert((g1 * a2) * a3 > (g2 * a1) * a3) by (nonlinear_arith)
        requires
            g1 * a2 > g2 * a1,
            a3 > 0,
    ;
    assert((g2 * a3) * a1 > (g3 * a2) * a1) by (nonlinear_arith)
        requires
            g2 * a3 > g3 * a2,
            a1 > 0,
    ;
    assert((g2 * a1) * a3 == (g2 * a3) * a1) by (nonlinear_arith);
    assert((g1 * a2) * a3 == (g1 * a3) * a2) by (nonlinear_arith);
    assert((g3 * a2) * a1 == (g3 * a1) * a2) by (nonlinear_arith);
    assert(g1 * a3 > g3 * a1) by (nonlinear_arith)
        requires
            (g1 * a3) * a2 > (g3 * a1) * a2,
            a2 > 0,
    ;
}

/// A ray that moves leaves the room through a face: `Nowhere` is the answer
/// only for a ray at rest.
pub proof fn lemma_moving_ray_leaves(lx: int, ly: int, ex: int, ey: int, ez: int, d: int)
    requires
        0 <= lx <= ONE,
        0 <= ly <= ONE,
        0 <= ez,
        0 <= d,
    ensures
        exit_face(lx, ly, ex, ey, ez, d) == ExitFace::Nowhere <==> ex == 0 && ey == 0 && ez == 0,
{
    let gx = wall_gap(lx, ex);
    let gy = wall_gap(ly, ey);
    let ax = speed(ex);
    let ay = speed(ey);
    assert(gx * ez >= 0 && gy * ez >= 0 && d * ax >= 0 && d * ay >= 0 && gx * ay >= 0 && gy * ax
        >= 0) by (nonlinear_arith)
        requires
            gx >= 0,
            gy >= 0,
            d >= 0,
            ax >= 0,
            ay >= 0,
            ez >= 0,
    ;
    assert(ax == 0 ==> d * ax == 0 && gy * ax == 0) by (nonlinear_arith);
    assert(ay == 0 ==> d * ay == 0 && gx * ay == 0) by (nonlinear_arith);
    assert(ez == 0 ==> gx * ez == 0 && gy * ez == 0) by (nonlinear_arith);
    if ax > 0 && ay > 0 && ez > 0 && exit_face(lx, ly, ex, ey, ez, d) == ExitFace::Nowhere {
        if d * ax > gx * ez && gx * ay > gy * ax {
            lemma_later_chain(d, ez, gx, ax, gy, ay);
        }
        if d * ay > gy * ez && gy * ax > gx * ay {
            lemma_later_chain(d, ez, gy, ay, gx, ax);
        }
    }
}

} // verus!
