//! Single-light behavior: capabilities, clearing, and the blackbody
//! conversion.

use lights::{temp_to_color, Color, ColorT, Light, RgbLight, RgbtLight, TLight, TempT, TranspT};

#[test]
fn clear_resets_every_variant() {
    let variants = vec![
        RgbLight::default_enum(),
        RgbtLight::default_enum(),
        TLight::default_enum(),
    ];
    for mut l in variants {
        l.set_color(Color::new(10, 20, 30));
        l.set_temp(44);
        l.set_transp(7);
        l.clear();
        assert_eq!(l.get_color(), Color::new(0, 0, 0));
        assert_eq!(l.get_temp(), 0);
        assert_eq!(l.get_transp(), 255);
    }
}

#[test]
fn color_capability_is_ignored_on_temp_only() {
    let mut l = TLight::default_enum();
    l.set_color(Color::new(9, 9, 9));
    assert_eq!(l.get_color(), Color::new(0, 0, 0));
}

#[test]
fn temp_capability_is_ignored_on_color_only() {
    let mut l = RgbLight::default_enum();
    l.set_temp(123);
    assert_eq!(l.get_temp(), 0);
}

#[test]
fn transparency_applies_to_every_variant() {
    for mut l in [
        RgbLight::default_enum(),
        RgbtLight::default_enum(),
        TLight::default_enum(),
    ] {
        l.set_transp(200);
        assert_eq!(l.get_transp(), 200);
    }
}

#[test]
fn color_and_temp_both_held_by_rgbt() {
    let mut l = RgbtLight::default_enum();
    l.set_color(Color::new(1, 2, 3));
    l.set_temp(50);
    assert_eq!(l.get_color(), Color::new(1, 2, 3));
    assert_eq!(l.get_temp(), 50);
}

#[test]
fn default_enums_are_zeroed() {
    match RgbLight::default_enum() {
        Light::RGB(x) => {
            assert_eq!(x.color, Color::new(0, 0, 0));
            assert_eq!(x.transparency, 0);
        }
        _ => panic!("wrong variant"),
    }
    match TLight::default_enum() {
        Light::T(x) => {
            assert_eq!(x.temp, 0);
            assert_eq!(x.transparency, 0);
        }
        _ => panic!("wrong variant"),
    }
}

#[test]
fn temp_to_color_boundary_at_66() {
    let c = temp_to_color(66);
    assert_eq!(c.red, 255);
    assert_eq!(c.blue, 255);
    assert_eq!(c.green, 255);
}

#[test]
fn temp_to_color_exact_values() {
    assert_eq!(temp_to_color(0), Color::new(255, 0, 0));
    assert_eq!(temp_to_color(1), Color::new(255, 0, 0));
    assert_eq!(temp_to_color(19), Color::new(255, 132, 0));
    assert_eq!(temp_to_color(20), Color::new(255, 137, 14));
    assert_eq!(temp_to_color(40), Color::new(255, 206, 166));
    assert_eq!(temp_to_color(65), Color::new(255, 254, 250));
    assert_eq!(temp_to_color(67), Color::new(254, 139, 255));
    assert_eq!(temp_to_color(100), Color::new(202, 122, 255));
    assert_eq!(temp_to_color(255), Color::new(163, 108, 255));
    assert_eq!(temp_to_color(1000), Color::new(132, 96, 255));
    assert_eq!(temp_to_color(100000), Color::new(71, 68, 255));
}

#[test]
fn random_color_runs() {
    let a = Color::random();
    let b = Color::random();
    // Nothing is promised of the values; only the shape is checked.
    let _ = (a, b);
}

#[test]
fn color_cell_contains_a_space() {
    let s = Color::new(10, 20, 30).as_string();
    assert!(s.contains(' '));
}

#[test]
fn temperature_light_renders_via_conversion() {
    let l = TLight::default_enum();
    // Rendering a temperature-only light goes through the blackbody
    // conversion; it must produce some cell text.
    assert!(!l.as_string().is_empty());
}
