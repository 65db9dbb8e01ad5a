//! Composite devices: strips, bulbs, bulb groups, and the sum type.

use lights::{Bulb, BulbGroup, Color, LightStrip, LightingTypes, Res, RgbLight};

fn strip(name: &str, pin: u8, len: usize) -> LightStrip {
    LightStrip::new(name.to_string(), pin, len, RgbLight::default_enum())
}

#[test]
fn strip_new_has_requested_shape() {
    let s = strip("desk", 3, 5);
    assert_eq!(s.get_length(), 5);
    assert_eq!(s.size(), 5);
    assert_eq!(s.get_pin(), 3);
    assert_eq!(s.get_name(), "desk".to_string());
}

#[test]
fn strip_grow_appends_template_and_shrink_truncates() {
    let mut s = strip("a", 0, 3);
    s.set_color(Color::new(5, 5, 5));
    s.set_length(5);
    assert_eq!(s.size(), 5);
    // The grown tail is template copies (cleared color-only lights), so the
    // aggregate is now mixed.
    assert_eq!(s.get_color(), Res::Mixed);
    s.set_length(2);
    assert_eq!(s.size(), 2);
    // Only the previously colored prefix is left.
    assert_eq!(s.get_color(), Res::Color(Color::new(5, 5, 5)));
}

#[test]
fn strip_set_index_out_of_range_is_ignored() {
    let mut s = strip("a", 0, 2);
    s.set_color_index(Color::new(9, 9, 9), 7);
    assert_eq!(s.get_color(), Res::Color(Color::new(0, 0, 0)));
    s.set_color_index(Color::new(9, 9, 9), 1);
    assert_eq!(s.get_color(), Res::Mixed);
}

#[test]
fn aggregate_empty_gives_defaults_not_mixed() {
    let s = strip("a", 0, 0);
    assert_eq!(s.get_color(), Res::Color(Color::new(0, 0, 0)));
    assert_eq!(s.get_temp(), Res::Temp(0));
    assert_eq!(s.get_transp(), Res::Transparency(0));
}

#[test]
fn aggregate_uniform_two_plus_gives_shared_value() {
    let mut s = strip("a", 0, 4);
    s.set_color(Color::new(1, 2, 3));
    s.set_temp(40);
    s.set_transp(9);
    assert_eq!(s.get_color(), Res::Color(Color::new(1, 2, 3)));
    assert_eq!(s.get_transp(), Res::Transparency(9));
}

#[test]
fn aggregate_disagreeing_gives_mixed() {
    let mut s = strip("a", 0, 3);
    s.set_transp_index(77, 1);
    assert_eq!(s.get_transp(), Res::Mixed);
}

#[test]
fn strip_sync_structure_takes_name_pin_length() {
    let mut a = strip("old", 1, 2);
    a.set_color(Color::new(8, 8, 8));
    let b = strip("new", 7, 4);
    a.sync_structure(&b);
    assert_eq!(a.get_name(), "new".to_string());
    assert_eq!(a.get_pin(), 7);
    assert_eq!(a.get_length(), 4);
    // The old light values are kept where the resize left them in place.
    assert_eq!(a.size(), 4);
    assert_eq!(a.get_color(), Res::Mixed);
}

#[test]
fn bulb_new_keeps_fields() {
    let mut b = Bulb::new("10.0.0.2".to_string(), "lamp".to_string());
    assert_eq!(b.get_ip(), "10.0.0.2".to_string());
    assert_eq!(b.get_name(), "lamp".to_string());
    assert_eq!(b.size(), 1);
    b.set_ip("10.0.0.3".to_string());
    assert_eq!(b.get_ip(), "10.0.0.3".to_string());
}

#[test]
fn bulb_new_enum_keeps_address_and_name() {
    let e = Bulb::new_enum("10.0.0.2".to_string(), "lamp".to_string());
    match e {
        LightingTypes::Bulb(b) => {
            assert_eq!(b.get_ip(), "10.0.0.2".to_string());
            assert_eq!(b.get_name(), "lamp".to_string());
        }
        _ => panic!("wrong variant"),
    }
}

#[test]
fn bulb_sync_structure_keeps_light() {
    let mut a = Bulb::new("ip1".to_string(), "n1".to_string());
    a.set_color(Color::new(4, 4, 4));
    let b = Bulb::new("ip2".to_string(), "n2".to_string());
    a.sync_structure(&b);
    assert_eq!(a.get_name(), "n2".to_string());
    assert_eq!(a.get_ip(), "ip2".to_string());
    assert_eq!(a.get_color(), Res::Color(Color::new(4, 4, 4)));
}

#[test]
fn group_add_remove_and_index() {
    let mut g = BulbGroup::new("room".to_string());
    assert_eq!(g.size(), 0);
    g.add_bulb(Bulb::new("a".to_string(), "b1".to_string()));
    g.add_bulb(Bulb::new("b".to_string(), "b2".to_string()));
    assert_eq!(g.size(), 2);
    assert_eq!(g.get_bulb(1).get_name(), "b2".to_string());
    g.remove_bulb(0);
    assert_eq!(g.size(), 1);
    assert_eq!(g.get_bulb(0).get_name(), "b2".to_string());
    // Out of range removals are ignored.
    g.remove_bulb(9);
    assert_eq!(g.size(), 1);
}

#[test]
fn group_broadcast_and_aggregate() {
    let mut g = BulbGroup::new("room".to_string());
    g.add_bulb(Bulb::new("a".to_string(), "b1".to_string()));
    g.add_bulb(Bulb::new("b".to_string(), "b2".to_string()));
    g.set_color(Color::new(3, 3, 3));
    assert_eq!(g.get_color(), Res::Color(Color::new(3, 3, 3)));
    g.set_color_index(Color::new(4, 4, 4), 0);
    assert_eq!(g.get_color(), Res::Mixed);
    g.clear();
    assert_eq!(g.get_color(), Res::Color(Color::new(0, 0, 0)));
    assert_eq!(g.get_transp(), Res::Transparency(255));
}

#[test]
fn entity_dispatch_matches_inner_device() {
    let mut e = LightStrip::new_enum("s".to_string(), 2, 3, RgbLight::default_enum());
    assert_eq!(e.size(), 3);
    assert_eq!(e.get_name(), "s".to_string());
    e.set_color(Color::new(6, 6, 6));
    assert_eq!(e.get_color(), Res::Color(Color::new(6, 6, 6)));
    e.set_name("t".to_string());
    assert_eq!(e.get_name(), "t".to_string());
    e.clear();
    assert_eq!(e.get_color(), Res::Color(Color::new(0, 0, 0)));
}

#[test]
fn entity_sync_structure_ignores_kind_mismatch() {
    let mut e = LightStrip::new_enum("s".to_string(), 2, 3, RgbLight::default_enum());
    let other = BulbGroup::new_enum("g".to_string());
    e.sync_structure(&other);
    assert_eq!(e.get_name(), "s".to_string());
    assert_eq!(e.size(), 3);
}

#[test]
fn entity_clone_is_deep() {
    let mut e = LightStrip::new_enum("s".to_string(), 2, 3, RgbLight::default_enum());
    let c = e.clone();
    e.set_color(Color::new(9, 9, 9));
    assert_eq!(c.get_color(), Res::Color(Color::new(0, 0, 0)));
    assert_eq!(e.get_color(), Res::Color(Color::new(9, 9, 9)));
}

#[test]
fn long_strip_rendering_is_windowed() {
    let s = strip("long", 0, 30);
    let text = s.as_string();
    assert!(text.contains("..."));
    let short = strip("short", 0, 3);
    assert!(!short.as_string().contains("..."));
}
