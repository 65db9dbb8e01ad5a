//! Profile instances: switches, scratch data and the private registry.

use lights::{Color, LightManager, Profile, ProfileData};

fn fresh() -> Profile {
    Profile::new("inst".to_string(), false, false, LightManager::new())
}

#[test]
fn new_instance_fields() {
    let p = fresh();
    assert_eq!(p.instance_name(), "inst".to_string());
    assert!(!p.is_on());
    assert!(!p.is_enabled());
    assert!(p.get_data("anything").is_none());
}

#[test]
fn switches_and_rename() {
    let mut p = fresh();
    p.set_on(true);
    assert!(p.is_on());
    p.set_on(false);
    assert!(!p.is_on());
    p.set_instance_name("other".to_string());
    assert_eq!(p.instance_name(), "other".to_string());
}

#[test]
fn scratch_data_insert_and_replace() {
    let mut p = fresh();
    p.set_data("current", ProfileData::Int(5));
    assert_eq!(p.get_int("current"), Some(5));
    p.set_data("current", ProfileData::Int(6));
    assert_eq!(p.get_int("current"), Some(6));
    p.set_data("color", ProfileData::Color(Color::new(1, 2, 3)));
    assert_eq!(p.get_color("color"), Some(Color::new(1, 2, 3)));
}

#[test]
fn typed_reads_reject_other_kinds() {
    let mut p = fresh();
    p.set_data("k", ProfileData::Bool(true));
    assert_eq!(p.get_int("k"), None);
    assert_eq!(p.get_color("k"), None);
    p.set_data("s", ProfileData::Str("text".to_string()));
    assert_eq!(p.get_int("s"), None);
    assert!(p.get_data("s").is_some());
}

#[test]
fn private_registry_is_reachable_and_mutable() {
    let mut canonical = LightManager::new();
    canonical.add_light(lights::LightStrip::new_enum(
        "s".to_string(),
        0,
        3,
        lights::RgbLight::default_enum(),
    ));
    let mut p = Profile::new("i".to_string(), true, true, canonical.new_template());
    assert_eq!(p.lights().get_light_strip_ids().len(), 1);
    let id = p.lights().get_light_strip_ids()[0];
    p.m().remove_light(id);
    assert_eq!(p.lights().get_light_strip_ids().len(), 0);
}
