//! The orchestrator: profile table, canonical registry and the broadcast.

use lights::{
    BuildInput, LightManager, LoadOutcome, ProfileLoader, RgbLight, System,
};

const OK_BUILD: &str = "{\"reason\":\"build-finished\",\"success\":true}\n";

fn strip_entity(name: &str, len: usize) -> lights::LightingTypes {
    lights::LightStrip::new_enum(name.to_string(), 0, len, RgbLight::default_enum())
}

fn load_profile(sys: &mut System, name: &str) {
    let mut l = sys.take_profile(name).expect("registered");
    l.new_profile(true).unwrap();
    l.compile_profile(BuildInput::Output(OK_BUILD.to_string())).unwrap();
    l.load_library(LoadOutcome::Loaded).unwrap();
    sys.put_profile(name.to_string(), l);
}

#[test]
fn profiles_register_once() {
    let mut sys = System::new("profiles".to_string());
    assert_eq!(sys.add_profile("a".to_string()), Ok(()));
    assert_eq!(sys.add_profile("a".to_string()), Err(()));
    assert_eq!(sys.get_profile_names(), vec!["a".to_string()]);
    assert!(sys.get_profile("a").is_some());
    assert!(sys.get_profile("b").is_none());
}

#[test]
fn remove_profile_hands_the_loader_out() {
    let mut sys = System::new("profiles".to_string());
    sys.add_profile("a".to_string()).unwrap();
    let l: ProfileLoader = sys.remove_profile("a".to_string()).expect("present");
    assert_eq!(l.get_name(), "a".to_string());
    assert_eq!(l.get_dir(), "profiles".to_string());
    assert!(sys.remove_profile("a".to_string()).is_err());
}

#[test]
fn instances_through_the_system() {
    let mut sys = System::new("profiles".to_string());
    sys.add_profile("p".to_string()).unwrap();
    // Before the module is loaded, instance creation fails.
    assert_eq!(sys.create_instance("p".to_string(), "i".to_string()), Err(()));
    load_profile(&mut sys, "p");
    assert_eq!(sys.create_instance("p".to_string(), "i".to_string()), Ok(()));
    assert_eq!(sys.create_instance("p".to_string(), "i".to_string()), Err(()));
    assert!(sys.get_instance("p", "i").is_some());
    assert!(sys.get_instance("p", "j").is_none());
    assert!(sys.get_instance("q", "i").is_none());
    assert_eq!(
        sys.get_instances_key(),
        vec![("p".to_string(), "i".to_string())]
    );
    let p = sys.remove_instance("p".to_string(), "i".to_string()).expect("present");
    assert_eq!(p.instance_name(), "i".to_string());
    assert!(sys.get_instance("p", "i").is_none());
    assert!(sys.remove_instance("p".to_string(), "i".to_string()).is_err());
}

#[test]
fn canonical_registry_through_the_system() {
    let mut sys = System::new("profiles".to_string());
    let id = sys.add_light(strip_entity("s", 4));
    assert_eq!(id, 0);
    assert!(sys.get_light(id).is_some());
    assert_eq!(sys.get_lights_id(), vec![id]);
    sys.remove_light(id);
    assert!(sys.get_light(id).is_none());
}

#[test]
fn topology_changes_are_broadcast_to_instances() {
    let mut sys = System::new("profiles".to_string());
    sys.add_profile("p".to_string()).unwrap();
    load_profile(&mut sys, "p");
    sys.create_instance("p".to_string(), "i".to_string()).unwrap();

    // A bulb added after the instance exists shows up in its private copy
    // without any explicit refresh.
    let id = sys.add_light(lights::LightingTypes::Bulb(lights::Bulb::new(
        "addr".to_string(),
        "nb".to_string(),
    )));
    {
        let p = sys.get_instance("p", "i").unwrap();
        assert!(p.lights().get_light(id).is_some());
    }

    // And a removal disappears from the private copy as promptly.
    sys.remove_light(id);
    let p = sys.get_instance("p", "i").unwrap();
    assert!(p.lights().get_light(id).is_none());
}
