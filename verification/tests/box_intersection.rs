use bevy_fake_interior::fixed::{Fixed, FixedVec2, FixedVec3, ONE};
use bevy_fake_interior::parallax::{box_intersection, BoxHit, ExitFace};

fn fx(v: f64) -> Fixed {
    Fixed::from_raw((v * ONE as f64).round() as i32)
}

fn vec2(x: f64, y: f64) -> FixedVec2 {
    FixedVec2 { x: fx(x), y: fx(y) }
}

fn vec3(x: f64, y: f64, z: f64) -> FixedVec3 {
    FixedVec3 { x: fx(x), y: fx(y), z: fx(z) }
}

fn raw2(x: i32, y: i32) -> FixedVec2 {
    FixedVec2 { x: Fixed { raw: x }, y: Fixed { raw: y } }
}

fn raw3(x: i32, y: i32, z: i32) -> FixedVec3 {
    FixedVec3 { x: Fixed { raw: x }, y: Fixed { raw: y }, z: Fixed { raw: z } }
}

fn hit(x: i32, y: i32, depth: i32, face: ExitFace) -> BoxHit {
    BoxHit { uv: raw2(x, y), depth: Fixed { raw: depth }, face }
}

#[test]
fn room_without_depth_returns_the_point() {
    let dirs = [
        vec3(0.0, 0.0, -1.0),
        vec3(0.5, 0.0, -0.866),
        vec3(-0.7, 0.7, -0.1),
        vec3(1.0, 0.0, 0.0),
        vec3(0.0, 0.0, 1.0),
        vec3(0.0, 0.0, 0.0),
        raw3(i32::MAX, i32::MIN, i32::MIN),
    ];
    for dir in dirs {
        for p in [0, 1, 20000, ONE / 2, ONE - 1, ONE] {
            let local = raw2(p, ONE - p);
            for rooms in [vec2(1.0, 1.0), vec2(6.0, 4.0), vec2(0.0, 0.0), vec2(-2.0, 2.5)] {
                for depth in [0, -1, -ONE, i32::MIN] {
                    let h = box_intersection(local, dir, rooms, Fixed { raw: depth });
                    assert_eq!(h, BoxHit { uv: local, depth: Fixed { raw: 0 }, face: ExitFace::Back });
                }
            }
        }
    }
}

#[test]
fn straight_view_meets_the_back_wall_behind_the_point() {
    for p in [0, 1, 20000, ONE / 2, ONE - 1] {
        let local = raw2(p, ONE - 1 - p);
        for depth in [1, ONE / 2, ONE] {
            let h = box_intersection(local, vec3(0.0, 0.0, -1.0), vec2(6.0, 6.0), Fixed { raw: depth });
            assert_eq!(h, BoxHit { uv: local, depth: Fixed { raw: depth }, face: ExitFace::Back });
        }
    }
}

#[test]
fn slight_tilt_shifts_the_point_on_the_back_wall() {
    let h = box_intersection(vec2(0.5, 0.5), vec3(0.1, -0.05, -0.99), vec2(1.0, 1.0), fx(0.5));
    assert_eq!(h, hit(36078, 31112, 32768, ExitFace::Back));
}

#[test]
fn tilt_to_the_right_ends_on_the_right_wall() {
    let tilt = 30.0_f64.to_radians();
    let h = box_intersection(raw2(32796, 32796), vec3(tilt.sin(), 0.0, -tilt.cos()), vec2(6.0, 6.0), fx(0.5));
    assert_eq!(h, hit(ONE, 32796, 9451, ExitFace::Side));
    // in a single room across the surface the same ray gets to the back wall
    let h = box_intersection(raw2(32796, 32796), vec3(tilt.sin(), 0.0, -tilt.cos()), vec2(1.0, 1.0), fx(0.5));
    assert_eq!(h, hit(51714, 32796, 32768, ExitFace::Back));
}

#[test]
fn tilt_upwards_ends_on_the_ceiling() {
    let h = box_intersection(vec2(0.25, 0.75), vec3(0.0, 0.5, -0.5), vec2(2.0, 2.0), fx(1.0));
    assert_eq!(h, hit(16384, ONE, 8192, ExitFace::Level));
}

#[test]
fn tilt_down_and_left_ends_on_the_nearer_wall() {
    let h = box_intersection(vec2(0.25, 0.75), vec3(-0.5, -0.5, -0.7), vec2(1.0, 1.0), fx(1.0));
    assert_eq!(h, hit(0, 32768, 22937, ExitFace::Side));
}

#[test]
fn mirrored_rooms_mirror_the_shift() {
    let h = box_intersection(vec2(0.5, 0.5), vec3(0.5, 0.0, -0.5), vec2(-1.0, 1.0), fx(1.0));
    assert_eq!(h, hit(0, 32768, 32768, ExitFace::Side));
}

#[test]
fn ray_along_the_surface_ends_on_a_wall_at_no_depth() {
    let h = box_intersection(vec2(0.25, 0.75), vec3(1.0, 0.0, 0.0), vec2(1.0, 1.0), fx(1.0));
    assert_eq!(h, hit(ONE, 49152, 0, ExitFace::Side));
}

#[test]
fn ray_out_of_the_surface_does_not_go_inwards() {
    let h = box_intersection(vec2(0.25, 0.75), vec3(0.6, 0.0, 0.8), vec2(1.0, 1.0), fx(1.0));
    assert_eq!(h, hit(ONE, 49152, 0, ExitFace::Side));
    let h = box_intersection(vec2(0.25, 0.75), vec3(0.0, 0.0, 1.0), vec2(1.0, 1.0), fx(1.0));
    assert_eq!(h, hit(16384, 49152, 0, ExitFace::Nowhere));
}

#[test]
fn ray_at_rest_leaves_nowhere() {
    let h = box_intersection(vec2(0.25, 0.75), vec3(0.0, 0.0, 0.0), vec2(1.0, 1.0), fx(1.0));
    assert_eq!(h, hit(16384, 49152, 0, ExitFace::Nowhere));
    let h = box_intersection(vec2(0.25, 0.75), vec3(1.0, 1.0, 0.0), vec2(0.0, 0.0), fx(1.0));
    assert_eq!(h, hit(16384, 49152, 0, ExitFace::Nowhere));
}

#[test]
fn depth_above_one_counts_as_one() {
    let deep = box_intersection(vec2(0.5, 0.5), vec3(0.3, 0.0, -0.9), vec2(1.0, 1.0), fx(5.0));
    let one = box_intersection(vec2(0.5, 0.5), vec3(0.3, 0.0, -0.9), vec2(1.0, 1.0), fx(1.0));
    assert_eq!(deep, hit(54613, 32768, ONE, ExitFace::Back));
    assert_eq!(deep, one);
}

#[test]
fn back_wall_goes_before_a_side_wall_reached_together() {
    let h = box_intersection(vec2(0.5, 0.5), vec3(0.5, 0.0, -0.5), vec2(1.0, 1.0), fx(0.5));
    assert_eq!(h, hit(ONE, 32768, 32768, ExitFace::Back));
    let h = box_intersection(vec2(0.5, 0.5), vec3(0.5, 0.5, 0.0), vec2(1.0, 1.0), fx(0.5));
    assert_eq!(h, hit(ONE, ONE, 0, ExitFace::Side));
}

#[test]
fn largest_numbers_stay_inside_the_room() {
    let h = box_intersection(raw2(0, ONE), raw3(i32::MIN, i32::MAX, i32::MIN), raw2(i32::MAX, i32::MIN), Fixed { raw: i32::MAX });
    assert_eq!(h, hit(0, ONE, 0, ExitFace::Side));
    let h = box_intersection(raw2(ONE - 1, 1), raw3(i32::MAX, i32::MAX, -1), raw2(i32::MAX, i32::MAX), Fixed { raw: 1 });
    assert_eq!(h, hit(ONE, 2, 0, ExitFace::Side));
}

#[test]
fn every_exit_lies_in_the_room_and_the_way_the_view_points() {
    let steps = [-ONE, -40000, -ONE / 3, -1, 0, 1, ONE / 5, 50000, ONE];
    for &dx in &steps {
        for &dy in &steps {
            for dz in [-ONE, -30000, -1, 0, 5] {
                for (lx, ly) in [(0, 0), (1, ONE - 1), (ONE / 2, ONE / 3), (ONE, ONE), (60000, 7)] {
                    for depth in [1, ONE / 2, ONE] {
                        let local = raw2(lx, ly);
                        let h = box_intersection(local, raw3(dx, dy, dz), vec2(4.0, 6.0), Fixed { raw: depth });
                        assert!(0 <= h.uv.x.raw && h.uv.x.raw <= ONE);
                        assert!(0 <= h.uv.y.raw && h.uv.y.raw <= ONE);
                        assert!(0 <= h.depth.raw && h.depth.raw <= depth);
                        assert!(dx < 0 || h.uv.x.raw >= lx);
                        assert!(dx > 0 || h.uv.x.raw <= lx);
                        assert!(dy < 0 || h.uv.y.raw >= ly);
                        assert!(dy > 0 || h.uv.y.raw <= ly);
                        let at_rest = dx == 0 && dy == 0 && dz >= 0;
                        assert_eq!(h.face == ExitFace::Nowhere, at_rest);
                        assert_ne!(h.face, ExitFace::Relief);
                        match h.face {
                            ExitFace::Back => assert_eq!(h.depth.raw, depth),
                            ExitFace::Side => assert!(h.uv.x.raw == 0 || h.uv.x.raw == ONE),
                            ExitFace::Level => assert!(h.uv.y.raw == 0 || h.uv.y.raw == ONE),
                            _ => assert_eq!(h.uv, local),
                        }
                    }
                }
            }
        }
    }
}
