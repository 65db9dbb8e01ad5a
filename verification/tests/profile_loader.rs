//! The per-profile lifecycle state machine and its instance table.

use lights::{
    BuildInput, Color, LightManager, LoadOutcome, LoaderError, ProfileData, ProfileLoader,
    ProfileLoaderState, RgbLight,
};

const OK_BUILD: &str = "{\"reason\":\"build-finished\",\"success\":true}\n";
const BAD_BUILD: &str =
    "{\"message\":{\"rendered\":\"error: no\"}}\n{\"reason\":\"build-finished\",\"success\":false}\n";

fn fresh() -> ProfileLoader {
    ProfileLoader::new("profiles".to_string(), "demo".to_string())
}

fn loaded() -> ProfileLoader {
    let mut l = fresh();
    l.new_profile(true).unwrap();
    l.compile_profile(BuildInput::Output(OK_BUILD.to_string())).unwrap();
    l.load_library(LoadOutcome::Loaded).unwrap();
    l
}

#[test]
fn scaffold_moves_to_exists_and_failure_is_retryable() {
    let mut l = fresh();
    assert!(l.scaffold_needed());
    assert_eq!(l.new_profile(false), Err(LoaderError::ScaffoldFailed));
    assert!(l.scaffold_needed());
    assert_eq!(l.new_profile(true), Ok(()));
    assert!(!l.scaffold_needed());
    assert!(l.build_needed());
    // A second scaffold is a no-op.
    assert_eq!(l.new_profile(true), Ok(()));
    assert!(l.build_needed());
}

#[test]
fn build_before_scaffold_fails_with_directory_missing() {
    let mut l = fresh();
    let r = l.compile_profile(BuildInput::Output(OK_BUILD.to_string()));
    assert_eq!(r, Err(LoaderError::DirectoryMissing));
    // Nothing moved: the loader still wants its scaffold.
    assert!(l.scaffold_needed());
}

#[test]
fn load_before_build_is_a_no_op() {
    let mut l = fresh();
    assert_eq!(l.load_library(LoadOutcome::Loaded), Ok(()));
    assert!(l.scaffold_needed());
    assert!(!l.is_loaded());
}

#[test]
fn successful_build_records_compiled() {
    let mut l = fresh();
    l.new_profile(true).unwrap();
    assert_eq!(l.compile_profile(BuildInput::Output(OK_BUILD.to_string())), Ok(()));
    assert!(l.load_needed());
    match l.get_state() {
        ProfileLoaderState::Compiled(d) => assert_eq!(d, "".to_string()),
        s => panic!("unexpected state {:?}", s),
    }
}

#[test]
fn failed_build_records_diagnostics() {
    let mut l = fresh();
    l.new_profile(true).unwrap();
    assert_eq!(
        l.compile_profile(BuildInput::Output(BAD_BUILD.to_string())),
        Err(LoaderError::CompileFailed)
    );
    match l.get_state() {
        ProfileLoaderState::FailedCompile(d) => assert_eq!(d, "error: no".to_string()),
        s => panic!("unexpected state {:?}", s),
    }
    // The build is not retried from here; a later load is a no-op.
    assert_eq!(l.load_library(LoadOutcome::Loaded), Ok(()));
    assert!(!l.is_loaded());
}

#[test]
fn missing_build_directory_fails_the_build() {
    let mut l = fresh();
    l.new_profile(true).unwrap();
    assert_eq!(
        l.compile_profile(BuildInput::DirMissing),
        Err(LoaderError::CompileFailed)
    );
    match l.get_state() {
        ProfileLoaderState::FailedCompile(d) => {
            assert_eq!(d, "Directory does not exists".to_string())
        }
        s => panic!("unexpected state {:?}", s),
    }
}

#[test]
fn load_failures_are_terminal_but_leave_compiled() {
    let mut l = fresh();
    l.new_profile(true).unwrap();
    l.compile_profile(BuildInput::Output(OK_BUILD.to_string())).unwrap();
    assert_eq!(l.load_library(LoadOutcome::Failed), Err(LoaderError::LoadFailed));
    assert!(l.load_needed());
    assert_eq!(
        l.load_library(LoadOutcome::MissingSymbol),
        Err(LoaderError::MissingSymbol)
    );
    assert!(l.load_needed());
    assert_eq!(l.load_library(LoadOutcome::Loaded), Ok(()));
    assert!(l.is_loaded());
}

#[test]
fn library_path_is_conventional() {
    let l = fresh();
    assert_eq!(
        l.library_path(),
        "profiles/demo/target/debug/libmain.so".to_string()
    );
}

#[test]
fn instances_require_a_loaded_module() {
    let mut l = fresh();
    let canonical = LightManager::new();
    assert_eq!(l.generate_instance("i".to_string(), &canonical), Err(()));
    let mut l = loaded();
    assert_eq!(l.generate_instance("i".to_string(), &canonical), Ok(()));
    assert!(l.has_instance("i"));
    assert_eq!(l.get_instance_names(), vec!["i".to_string()]);
}

#[test]
fn duplicate_instance_is_rejected_and_existing_untouched() {
    let mut l = loaded();
    let mut canonical = LightManager::new();
    canonical.add_light(lights::LightStrip::new_enum(
        "s".to_string(),
        0,
        2,
        RgbLight::default_enum(),
    ));
    l.generate_instance("i".to_string(), &canonical).unwrap();
    // Mark the existing instance so any replacement would be visible.
    let mut p = l.remove_instance("i").unwrap();
    p.set_data("mark", ProfileData::Int(41));
    l.put_instance("i".to_string(), p);

    assert_eq!(l.generate_instance("i".to_string(), &canonical), Err(()));
    let p = l.get_instance("i").expect("still there");
    assert_eq!(p.get_int("mark"), Some(41));
}

#[test]
fn instance_registry_is_seeded_from_template() {
    let mut canonical = LightManager::new();
    let id = canonical.add_light(lights::LightStrip::new_enum(
        "s".to_string(),
        0,
        5,
        RgbLight::default_enum(),
    ));
    let mut l = loaded();
    l.generate_instance("i".to_string(), &canonical).unwrap();
    let p = l.get_instance("i").unwrap();
    let e = p.lights().get_light(id).expect("template entry");
    assert_eq!(e.size(), 5);
    assert!(!p.is_on());
}

#[test]
fn remove_instance_unknown_name_fails() {
    let mut l = loaded();
    assert!(l.remove_instance("nope").is_none());
}

#[test]
fn update_targets_lists_only_running_instances() {
    let mut l = loaded();
    let canonical = LightManager::new();
    l.generate_instance("a".to_string(), &canonical).unwrap();
    l.generate_instance("b".to_string(), &canonical).unwrap();
    let mut p = l.remove_instance("b").unwrap();
    p.set_on(true);
    l.put_instance("b".to_string(), p);
    assert_eq!(l.update_targets(), vec!["b".to_string()]);
}

#[test]
fn unload_hands_every_instance_out_and_keeps_state() {
    let mut l = loaded();
    let canonical = LightManager::new();
    l.generate_instance("a".to_string(), &canonical).unwrap();
    l.generate_instance("b".to_string(), &canonical).unwrap();
    let out = l.unload();
    assert_eq!(out.len(), 2);
    assert!(l.get_instance_names().is_empty());
    // The recorded state is not moved backward.
    assert!(l.is_loaded());
}

#[test]
fn update_light_structure_reconciles_every_instance() {
    let mut canonical = LightManager::new();
    let mut l = loaded();
    l.generate_instance("a".to_string(), &canonical).unwrap();
    // The canonical registry gains a bulb after the instance was created.
    let id = canonical.add_light(lights::LightingTypes::Bulb(lights::Bulb::new(
        "addr".to_string(),
        "nb".to_string(),
    )));
    l.update_light_structure(&canonical);
    let p = l.get_instance("a").unwrap();
    assert!(p.lights().get_light(id).is_some());
}

#[test]
fn lifecycle_end_to_end_effect_cycles_within_bounds() {
    // One strip of 300 black lights in the canonical registry.
    let mut canonical = LightManager::new();
    let strip_id = canonical.add_light(lights::LightStrip::new_enum(
        "strip".to_string(),
        0,
        300,
        RgbLight::default_enum(),
    ));

    let mut l = loaded();
    l.generate_instance("TEST TEST TEST".to_string(), &canonical).unwrap();

    // Switch the instance on and seed the effect parameters, playing the
    // module's creation hook.
    let mut p = l.remove_instance("TEST TEST TEST").unwrap();
    p.set_on(true);
    p.set_data("max", ProfileData::Int(300));
    p.set_data("current", ProfileData::Int(0));
    p.set_data("color", ProfileData::Color(Color::new(10, 10, 10)));
    l.put_instance("TEST TEST TEST".to_string(), p);

    for _tick in 0..500 {
        for name in l.update_targets() {
            let mut p = l.remove_instance(name.as_str()).unwrap();
            // The module's per-tick hook: paint one cell and advance.
            let mut current = p.get_int("current").unwrap();
            let max = p.get_int("max").unwrap();
            let color = p.get_color("color").unwrap();
            match p.m().take_light(strip_id) {
                Some(lights::LightingTypes::LightStrip(mut s)) => {
                    s.set_color_index(color, current as usize);
                    p.m().put_light(strip_id, lights::LightingTypes::LightStrip(s));
                }
                _ => panic!("strip vanished"),
            }
            current += 1;
            if current >= max {
                current = 0;
            }
            p.set_data("current", ProfileData::Int(current));

            // The structure never drifts and the cursor stays in range.
            match p.lights().get_light(strip_id) {
                Some(e) => assert_eq!(e.size(), 300),
                None => panic!("strip vanished"),
            }
            let c = p.get_int("current").unwrap();
            assert!(0 <= c && c < max);

            l.put_instance(name, p);
        }
    }
}
