use bevy_fake_interior::emission::{compose_output, emission_gate, gate_emissive, Rgb, Rgba};
use bevy_fake_interior::fixed::{Fixed, ONE};

fn fx(v: f64) -> Fixed {
    Fixed::from_raw((v * ONE as f64).round() as i32)
}

fn rgb(r: f64, g: f64, b: f64) -> Rgb {
    Rgb { r: fx(r), g: fx(g), b: fx(b) }
}

fn rgba(r: f64, g: f64, b: f64, a: f64) -> Rgba {
    Rgba { r: fx(r), g: fx(g), b: fx(b), a: fx(a) }
}

#[test]
fn threshold_of_one_lights_every_room() {
    for x in -20..20 {
        for y in -20..20 {
            assert!(emission_gate(x, y, fx(1.0), fx(1.0)));
            assert!(emission_gate(x, y, fx(3.3), Fixed { raw: ONE - 1 }));
            assert!(emission_gate(x, y, fx(1.0), Fixed { raw: i32::MAX }));
        }
    }
}

#[test]
fn threshold_below_zero_lights_no_room() {
    for x in -20..20 {
        for y in -20..20 {
            assert!(!emission_gate(x, y, fx(1.0), Fixed { raw: -1 }));
            assert!(!emission_gate(x, y, fx(1.0), Fixed { raw: i32::MIN }));
        }
    }
}

#[test]
fn room_is_lit_from_its_level_upwards() {
    // the levels that the rooms around the first draw under seed one
    let levels = [[60194, 12385, 23137], [1659, 27090, 10109], [48331, 4710, 17586]];
    for (i, x) in (-1..2).enumerate() {
        for (j, y) in (-1..2).enumerate() {
            let level = levels[i][j];
            assert!(emission_gate(x, y, fx(1.0), Fixed { raw: level }));
            assert!(emission_gate(x, y, fx(1.0), Fixed { raw: level + 1 }));
            assert!(!emission_gate(x, y, fx(1.0), Fixed { raw: level - 1 }));
        }
    }
}

#[test]
fn gate_is_the_same_each_time() {
    for x in -5..5 {
        for y in -5..5 {
            let first = emission_gate(x, y, fx(1.7), fx(0.4));
            for _ in 0..5 {
                assert_eq!(emission_gate(x, y, fx(1.7), fx(0.4)), first);
            }
        }
    }
}

#[test]
fn raising_the_threshold_never_darkens_a_room() {
    for x in 0..12 {
        for y in 0..12 {
            let mut was_lit = false;
            let mut t = -ONE / 8;
            while t <= ONE + ONE / 8 {
                let lit = emission_gate(x, y, fx(1.0), Fixed { raw: t });
                assert!(lit || !was_lit);
                was_lit = lit;
                t += ONE / 16;
            }
            assert!(was_lit);
        }
    }
}

#[test]
fn half_threshold_lights_about_half_of_the_rooms() {
    let mut lit = 0;
    for x in 0..32 {
        for y in 0..32 {
            if emission_gate(x, y, fx(1.0), fx(0.5)) {
                lit += 1;
            }
        }
    }
    assert_eq!(lit, 506);
}

#[test]
fn dark_room_emits_nothing() {
    let out = gate_emissive(rgb(0.5, 0.25, 1.0), false, fx(10.0));
    assert_eq!(out, rgb(0.0, 0.0, 0.0));
    let out = gate_emissive(Rgb { r: Fixed { raw: i32::MAX }, g: Fixed { raw: i32::MIN }, b: fx(1.0) }, false, Fixed { raw: i32::MAX });
    assert_eq!(out, rgb(0.0, 0.0, 0.0));
}

#[test]
fn lit_room_emits_the_texture_times_the_intensity() {
    assert_eq!(gate_emissive(rgb(0.5, 0.25, 1.0), true, fx(10.0)), rgb(5.0, 2.5, 10.0));
    assert_eq!(gate_emissive(rgb(0.5, 0.25, 1.0), true, fx(1.0)), rgb(0.5, 0.25, 1.0));
    assert_eq!(gate_emissive(rgb(0.5, 0.25, 1.0), true, fx(0.0)), rgb(0.0, 0.0, 0.0));
    // products are rounded down
    let out = gate_emissive(Rgb { r: Fixed { raw: 3 }, g: Fixed { raw: -3 }, b: Fixed { raw: 1 } }, true, fx(0.5));
    assert_eq!(out, Rgb { r: Fixed { raw: 1 }, g: Fixed { raw: -2 }, b: Fixed { raw: 0 } });
}

#[test]
fn emission_saturates() {
    let big = Fixed { raw: i32::MAX };
    let low = Fixed { raw: i32::MIN };
    let out = gate_emissive(Rgb { r: big, g: low, b: low }, true, big);
    assert_eq!(out, Rgb { r: big, g: low, b: low });
    let out = gate_emissive(Rgb { r: big, g: low, b: fx(1.0) }, true, low);
    assert_eq!(out, Rgb { r: low, g: big, b: fx(-32768.0) });
}

#[test]
fn output_is_base_plus_emission() {
    let out = compose_output(rgba(0.2, 0.3, 0.4, 0.5), rgb(1.0, 0.0, 2.5), false);
    assert_eq!(out, rgba(0.2 + 1.0, 0.3, 0.4 + 2.5, 1.0));
    let out = compose_output(rgba(0.2, 0.3, 0.4, 0.5), rgb(0.0, 0.0, 0.0), false);
    assert_eq!(out, rgba(0.2, 0.3, 0.4, 1.0));
}

#[test]
fn blended_material_keeps_the_alpha_of_the_base() {
    let out = compose_output(rgba(0.2, 0.3, 0.4, 0.5), rgb(1.0, 0.0, 2.5), true);
    assert_eq!(out.a, fx(0.5));
    let out = compose_output(rgba(0.2, 0.3, 0.4, 0.0), rgb(1.0, 0.0, 2.5), true);
    assert_eq!(out.a, fx(0.0));
    let out = compose_output(rgba(0.2, 0.3, 0.4, 0.0), rgb(1.0, 0.0, 2.5), false);
    assert_eq!(out.a, fx(1.0));
}

#[test]
fn output_saturates() {
    let big = Fixed { raw: i32::MAX };
    let low = Fixed { raw: i32::MIN };
    let out = compose_output(Rgba { r: big, g: low, b: big, a: big }, Rgb { r: fx(1.0), g: fx(-1.0), b: low }, true);
    assert_eq!(out, Rgba { r: big, g: low, b: Fixed { raw: -1 }, a: big });
}
