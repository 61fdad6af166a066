use bevy_fake_interior::fixed::{Fixed, FixedVec2, FixedVec3, ONE};
use bevy_fake_interior::{FakeInteriorMaterial, FakeInteriorMaterialUniform};
use bevy_fake_interior::parallax::{box_intersection, BoxHit, ExitFace};
use bevy_fake_interior::relief::{refine, room_sample_with_relief, DepthMap, FULL_DEPTH};
use bevy_fake_interior::atlas::{atlas_uv, AtlasCell};
use bevy_fake_interior::cell::CellCoord;
use bevy_fake_interior::shader::{room_sample, RoomSample};

fn fx(v: f64) -> Fixed {
    Fixed::from_raw((v * ONE as f64).round() as i32)
}

fn vec2(x: f64, y: f64) -> FixedVec2 {
    FixedVec2 { x: fx(x), y: fx(y) }
}

fn vec3(x: f64, y: f64, z: f64) -> FixedVec3 {
    FixedVec3 { x: fx(x), y: fx(y), z: fx(z) }
}

fn raw2(x: i32, y: i32) -> FixedVec2 {
    FixedVec2 { x: Fixed { raw: x }, y: Fixed { raw: y } }
}

fn hit(x: i32, y: i32, depth: i32, face: ExitFace) -> BoxHit {
    BoxHit { uv: raw2(x, y), depth: Fixed { raw: depth }, face }
}

fn wall() -> FakeInteriorMaterialUniform {
    FakeInteriorMaterial {
        atlas_rooms: vec2(3.0, 2.0),
        rooms: vec2(6.0, 6.0),
        depth: fx(0.5),
        room_seed: fx(1.2),
        ..FakeInteriorMaterial::default()
    }
    .as_bind_group_shader_type()
}

fn flat_map(depth: u16) -> DepthMap {
    DepthMap::new(1, 1, vec![depth]).unwrap()
}

/// A sample of the room `(0, 0)` that shows the design `cell`, for a ray
/// from `local` along `dir`.
fn sample_of(local: FixedVec2, dir: FixedVec3, cell: AtlasCell, params: &FakeInteriorMaterialUniform) -> RoomSample {
    let hit = box_intersection(local, dir, params.rooms, params.depth);
    RoomSample {
        cell: CellCoord { cell_x: 0, cell_y: 0, local },
        atlas_cell: cell,
        hit,
        atlas_uv: atlas_uv(cell, hit.uv, params.atlas_rooms),
        lit: true,
    }
}

#[test]
fn map_needs_as_many_texels_as_its_size_says() {
    assert!(DepthMap::new(2, 3, vec![0; 6]).is_some());
    assert!(DepthMap::new(1, 1, vec![9]).is_some());
    assert!(DepthMap::new(2, 3, vec![0; 5]).is_none());
    assert!(DepthMap::new(2, 3, vec![0; 7]).is_none());
    assert!(DepthMap::new(0, 3, vec![]).is_none());
    assert!(DepthMap::new(3, 0, vec![]).is_none());
    assert!(DepthMap::new(0, 0, vec![]).is_none());
    assert!(DepthMap::new(300, 300, vec![1; 90_000]).is_some());
    let map = DepthMap::new(2, 3, vec![0; 6]).unwrap();
    assert_eq!((map.width(), map.height()), (2, 3));
}

#[test]
fn fetch_reads_the_texel_that_covers_the_point() {
    let map = DepthMap::new(3, 2, vec![10, 11, 12, 20, 21, 22]).unwrap();
    assert_eq!(map.fetch(raw2(0, 0)), 10);
    assert_eq!(map.fetch(raw2(ONE / 3, 0)), 10);
    assert_eq!(map.fetch(raw2(ONE / 3 + 1, 0)), 11);
    assert_eq!(map.fetch(raw2(2 * ONE / 3 + 1, ONE / 2 - 1)), 12);
    assert_eq!(map.fetch(raw2(0, ONE / 2)), 20);
    assert_eq!(map.fetch(raw2(ONE / 2, ONE / 2)), 21);
    assert_eq!(map.fetch(raw2(ONE - 1, ONE - 1)), 22);
    // the far edge belongs to the last texel
    assert_eq!(map.fetch(raw2(ONE, ONE)), 22);
    assert_eq!(map.fetch(raw2(ONE, 0)), 12);
    assert_eq!(map.fetch(raw2(0, ONE)), 20);
    // what lies outside the map is read at its nearer edge
    assert_eq!(map.fetch(raw2(-5, 2 * ONE)), 20);
    assert_eq!(map.fetch(raw2(i32::MAX, i32::MIN)), 12);
    assert_eq!(map.fetch(raw2(ONE / 2, -1)), 11);
}

#[test]
fn without_a_map_nothing_is_refined() {
    let params = wall();
    for dir in [vec3(0.0, 0.0, -1.0), vec3(0.5, 0.0, -0.866), vec3(-0.3, 0.4, -0.5)] {
        let uv = vec2(0.0834, 0.61);
        assert_eq!(
            room_sample_with_relief(uv, dir, &params, None, 8, 4),
            room_sample(uv, dir, &params)
        );
    }
}

#[test]
fn with_a_map_the_sample_is_the_refined_one() {
    let params = wall();
    let map = flat_map(FULL_DEPTH / 2 + 1);
    for dir in [vec3(0.0, 0.0, -1.0), vec3(0.5, 0.0, -0.866), vec3(-0.3, 0.4, -0.5)] {
        let uv = vec2(0.0834, 0.61);
        let s = room_sample(uv, dir, &params);
        assert_eq!(
            room_sample_with_relief(uv, dir, &params, Some(&map), 8, 4),
            refine(&s, &params, &map, 8, 4)
        );
    }
}

#[test]
fn surface_at_the_wall_stops_the_ray_at_once() {
    let params = wall();
    let map = flat_map(0);
    let local = raw2(32796, 32796);
    let tilt = 30.0_f64.to_radians();
    for dir in [vec3(0.0, 0.0, -1.0), vec3(tilt.sin(), 0.0, -tilt.cos())] {
        let s = sample_of(local, dir, AtlasCell { col: 0, row: 0 }, &params);
        for (linear, binary) in [(8, 4), (0, 0), (4, 200), (255, 8)] {
            let r = refine(&s, &params, &map, linear, binary);
            assert_eq!(r.hit, hit(32796, 32796, 0, ExitFace::Relief));
            assert_eq!(r.atlas_uv, atlas_uv(s.atlas_cell, local, params.atlas_rooms));
        }
    }
}

#[test]
fn surface_at_the_back_wall_is_met_where_the_ray_meets_that_wall() {
    let params = wall();
    let map = flat_map(FULL_DEPTH);
    let s = sample_of(raw2(32796, 32796), vec3(0.0, 0.0, -1.0), AtlasCell { col: 0, row: 0 }, &params);
    assert_eq!(s.hit, hit(32796, 32796, 32768, ExitFace::Back));
    for (linear, binary) in [(8, 4), (0, 0), (4, 200)] {
        let r = refine(&s, &params, &map, linear, binary);
        assert_eq!(r.hit, hit(32796, 32796, 32768, ExitFace::Relief));
        assert_eq!(r.atlas_uv, s.atlas_uv);
    }
}

#[test]
fn ray_that_leaves_by_a_side_wall_above_the_surface_is_not_stopped() {
    let params = wall();
    let tilt = 30.0_f64.to_radians();
    let s = sample_of(raw2(32796, 32796), vec3(tilt.sin(), 0.0, -tilt.cos()), AtlasCell { col: 0, row: 0 }, &params);
    assert_eq!(s.hit, hit(ONE, 32796, 9451, ExitFace::Side));
    for depth in [FULL_DEPTH, FULL_DEPTH / 2 + 1] {
        let r = refine(&s, &params, &flat_map(depth), 8, 4);
        assert_eq!(r, s);
    }
}

#[test]
fn surface_half_way_down_is_met_half_way_down() {
    let params = wall();
    let map = flat_map(FULL_DEPTH / 2 + 1);
    let s = sample_of(raw2(32796, 32796), vec3(0.0, 0.0, -1.0), AtlasCell { col: 0, row: 0 }, &params);
    assert_eq!(refine(&s, &params, &map, 8, 4).hit, hit(32796, 32796, 16384, ExitFace::Relief));
    assert_eq!(refine(&s, &params, &map, 4, 200).hit, hit(32796, 32796, 16384, ExitFace::Relief));
    // a single step without halving only sees the end of the ray
    assert_eq!(refine(&s, &params, &map, 0, 0).hit, hit(32796, 32796, 32768, ExitFace::Relief));
    assert_eq!(refine(&s, &params, &map, 1, 0).hit, hit(32796, 32796, 32768, ExitFace::Relief));
}

#[test]
fn step_in_the_map_is_met_where_the_ray_passes_over_it() {
    // an atlas of three by two designs, two by two texels each; the design
    // in the second column has a raised right half
    let mut texels = vec![FULL_DEPTH; 24];
    texels[3] = 8192;
    texels[9] = 8192;
    let map = DepthMap::new(6, 4, texels).unwrap();
    let params = FakeInteriorMaterialUniform { rooms: vec2(1.0, 1.0), depth: fx(1.0), ..wall() };
    let tilt = 30.0_f64.to_radians();
    let dir = vec3(tilt.sin(), 0.0, -tilt.cos());
    let s = sample_of(vec2(0.25, 0.5), dir, AtlasCell { col: 1, row: 0 }, &params);
    assert_eq!(s.hit, hit(54221, 32768, ONE, ExitFace::Back));
    let r = refine(&s, &params, &map, 8, 4);
    assert_eq!(r.hit, hit(32937, 32768, 28672, ExitFace::Relief));
    assert_eq!(r.atlas_uv, atlas_uv(s.atlas_cell, r.hit.uv, params.atlas_rooms));
    assert_eq!(r.cell, s.cell);
    assert_eq!(r.atlas_cell, s.atlas_cell);
    assert_eq!(r.lit, s.lit);
    // fewer steps find the step in the map less exactly
    let coarse = refine(&s, &params, &map, 2, 0);
    assert_eq!(coarse.hit, hit(35302, 32768, 32768, ExitFace::Relief));
    // the same ray in a design without the step goes on to the back wall
    let other = sample_of(vec2(0.25, 0.5), dir, AtlasCell { col: 0, row: 0 }, &params);
    assert_eq!(refine(&other, &params, &map, 8, 4).hit, hit(54221, 32768, ONE, ExitFace::Relief));
}

#[test]
fn refined_point_lies_on_the_way_of_the_ray() {
    let texels: Vec<u16> = (0..64u32).map(|i| (i * 7919 % 65536) as u16).collect();
    let map = DepthMap::new(8, 8, texels).unwrap();
    let params = wall();
    for i in 0..20 {
        for j in 0..20 {
            let uv = vec2(i as f64 / 20.0 + 0.003, j as f64 / 20.0 + 0.007);
            for dir in [vec3(0.0, 0.0, -1.0), vec3(0.2, -0.1, -0.9), vec3(-0.05, 0.02, -0.99)] {
                let s = room_sample(uv, dir, &params);
                let r = refine(&s, &params, &map, 8, 4);
                let (lx, hx, rx) = (s.cell.local.x.raw, s.hit.uv.x.raw, r.hit.uv.x.raw);
                let (ly, hy, ry) = (s.cell.local.y.raw, s.hit.uv.y.raw, r.hit.uv.y.raw);
                assert!(lx.min(hx) <= rx && rx <= lx.max(hx));
                assert!(ly.min(hy) <= ry && ry <= ly.max(hy));
                assert!(0 <= r.hit.depth.raw && r.hit.depth.raw <= s.hit.depth.raw);
                assert_eq!(r.cell, s.cell);
                assert_eq!(r.atlas_cell, s.atlas_cell);
                assert_eq!(r.lit, s.lit);
                assert_eq!(r.atlas_uv, atlas_uv(r.atlas_cell, r.hit.uv, params.atlas_rooms));
                if r.hit.face != ExitFace::Relief {
                    assert_eq!(r, s);
                } else {
                    let stored = map.fetch(r.atlas_uv) as i64;
                    assert!(r.hit.depth.raw as i64 >= stored * 32768 / 65535);
                }
                assert_eq!(refine(&s, &params, &map, 8, 4), r);
            }
        }
    }
}

#[test]
fn flat_room_is_not_refined() {
    let params = FakeInteriorMaterialUniform { depth: fx(0.0), ..wall() };
    for depth in [0, 1, FULL_DEPTH] {
        let s = room_sample(vec2(0.3, 0.3), vec3(0.4, 0.0, -0.9), &params);
        assert_eq!(refine(&s, &params, &flat_map(depth), 8, 4), s);
        assert_eq!(s.hit.uv, s.cell.local);
    }
}
