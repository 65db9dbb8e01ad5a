//! The device registry: id allocation, classification, templates and
//! reconciliation.

use lights::{Bulb, BulbGroup, Color, LightManager, LightStrip, LightingTypes, Res, RgbLight};

fn strip_entity(name: &str, len: usize) -> LightingTypes {
    LightStrip::new_enum(name.to_string(), 0, len, RgbLight::default_enum())
}

fn bulb_entity(name: &str) -> LightingTypes {
    LightingTypes::Bulb(Bulb::new("addr".to_string(), name.to_string()))
}

fn group_entity(name: &str) -> LightingTypes {
    BulbGroup::new_enum(name.to_string())
}

#[test]
fn ids_allocate_upward_and_freed_ids_are_not_reused_while_hint_is_past() {
    let mut m = LightManager::new();
    let a = m.add_light(strip_entity("s0", 1));
    let b = m.add_light(bulb_entity("b0"));
    let c = m.add_light(group_entity("g0"));
    assert_eq!((a, b, c), (0, 1, 2));
    m.remove_light(1);
    // The scan starts at the hint (3), so the freed id 1 is not reused.
    let d = m.add_light(bulb_entity("b1"));
    assert_eq!(d, 3);
    m.remove_light(0);
    let e = m.add_light(bulb_entity("b2"));
    assert_eq!(e, 4);
}

#[test]
fn present_ids_are_unique_after_add_remove_sequences() {
    let mut m = LightManager::new();
    for i in 0..8 {
        m.add_light(strip_entity(&format!("s{}", i), 1));
    }
    m.remove_light(2);
    m.remove_light(5);
    m.add_light(bulb_entity("x"));
    m.add_light(bulb_entity("y"));
    let mut ids = m.get_all_ids();
    let n = ids.len();
    ids.sort();
    ids.dedup();
    assert_eq!(ids.len(), n);
    assert_eq!(n, 8);
}

#[test]
fn get_and_remove() {
    let mut m = LightManager::new();
    let id = m.add_light(strip_entity("s", 2));
    assert!(m.get_light(id).is_some());
    assert!(m.get_light(99).is_none());
    m.remove_light(id);
    assert!(m.get_light(id).is_none());
    // Removing an absent id is a no-op.
    m.remove_light(id);
}

#[test]
fn take_and_put_light() {
    let mut m = LightManager::new();
    let id = m.add_light(strip_entity("s", 2));
    let mut e = m.take_light(id).expect("present");
    assert!(m.get_light(id).is_none());
    e.set_color(Color::new(1, 1, 1));
    m.put_light(id, e);
    assert_eq!(
        m.get_light(id).unwrap().get_color(),
        Res::Color(Color::new(1, 1, 1))
    );
}

#[test]
fn classification_queries() {
    let mut m = LightManager::new();
    let s = m.add_light(strip_entity("s", 1));
    let b = m.add_light(bulb_entity("b"));
    let g = m.add_light(group_entity("g"));
    assert_eq!(m.get_light_strip_ids(), vec![s]);
    assert_eq!(m.get_bulb_ids(), vec![b]);
    assert_eq!(m.get_bulb_group_ids(), vec![g]);
    let mut bulbish = m.get_all_bulb_ids();
    bulbish.sort();
    assert_eq!(bulbish, vec![b, g]);
}

#[test]
fn clear_keeps_entries_but_resets_lights() {
    let mut m = LightManager::new();
    let id = m.add_light(strip_entity("s", 3));
    match m.take_light(id).unwrap() {
        LightingTypes::LightStrip(mut s) => {
            s.set_color(Color::new(9, 9, 9));
            m.put_light(id, LightingTypes::LightStrip(s));
        }
        _ => panic!("wrong variant"),
    }
    m.clear();
    let e = m.get_light(id).expect("entry kept");
    assert_eq!(e.get_color(), Res::Color(Color::new(0, 0, 0)));
    assert_eq!(e.get_transp(), Res::Transparency(255));
    assert_eq!(e.get_name(), "s".to_string());
}

#[test]
fn template_is_cleared_copy_with_same_shape() {
    let mut m = LightManager::new();
    let id = m.add_light(strip_entity("s", 4));
    match m.take_light(id).unwrap() {
        LightingTypes::LightStrip(mut s) => {
            s.set_color(Color::new(9, 9, 9));
            m.put_light(id, LightingTypes::LightStrip(s));
        }
        _ => panic!("wrong variant"),
    }
    let t = m.new_template();
    let e = t.get_light(id).expect("same topology");
    assert_eq!(e.size(), 4);
    assert_eq!(e.get_color(), Res::Color(Color::new(0, 0, 0)));
    // The source registry is untouched.
    assert_eq!(
        m.get_light(id).unwrap().get_color(),
        Res::Color(Color::new(9, 9, 9))
    );
}

#[test]
fn reconcile_topology_matches_canonical_bulb_likes() {
    let mut canonical = LightManager::new();
    let cs = canonical.add_light(strip_entity("cs", 2));
    let cb = canonical.add_light(bulb_entity("cb"));
    let cg = canonical.add_light(group_entity("cg"));

    // The private copy starts from the template, then drifts: an extra
    // bulb and an extra strip appear, and a canonical bulb is dropped.
    let mut private = canonical.new_template();
    let extra_bulb = private.add_light(bulb_entity("extra-bulb"));
    let extra_strip = private.add_light(strip_entity("extra-strip", 1));
    private.remove_light(cb);

    private.sync_structure(&canonical);

    // Every canonical id is present again.
    assert!(private.get_light(cs).is_some());
    assert!(private.get_light(cb).is_some());
    assert!(private.get_light(cg).is_some());
    // The extra bulb-like entry is gone; the extra strip is kept.
    assert!(private.get_light(extra_bulb).is_none());
    assert!(private.get_light(extra_strip).is_some());
    // Every bulb-like id of the private copy is a canonical id.
    for id in private.get_all_bulb_ids() {
        assert!(canonical.get_light(id).is_some());
    }
}

#[test]
fn reconcile_is_idempotent() {
    let mut canonical = LightManager::new();
    canonical.add_light(strip_entity("cs", 2));
    canonical.add_light(bulb_entity("cb"));

    let mut private = LightManager::new();
    private.add_light(bulb_entity("stale"));

    private.sync_structure(&canonical);
    let mut once = private.get_all_ids();
    once.sort();
    let names_once: Vec<String> = once
        .iter()
        .map(|i| private.get_light(*i).unwrap().get_name())
        .collect();

    private.sync_structure(&canonical);
    let mut twice = private.get_all_ids();
    twice.sort();
    let names_twice: Vec<String> = twice
        .iter()
        .map(|i| private.get_light(*i).unwrap().get_name())
        .collect();

    assert_eq!(once, twice);
    assert_eq!(names_once, names_twice);
}

#[test]
fn reconcile_keeps_local_entry_present_on_both_sides() {
    let mut canonical = LightManager::new();
    let id = canonical.add_light(bulb_entity("shared"));

    let mut private = canonical.new_template();
    match private.take_light(id).unwrap() {
        LightingTypes::Bulb(mut b) => {
            b.set_color(Color::new(7, 7, 7));
            private.put_light(id, LightingTypes::Bulb(b));
        }
        _ => panic!("wrong variant"),
    }
    private.sync_structure(&canonical);
    // The local entry is kept as-is, not replaced by the canonical clone.
    assert_eq!(
        private.get_light(id).unwrap().get_color(),
        Res::Color(Color::new(7, 7, 7))
    );
}

#[test]
fn registry_rendering_has_kind_sections() {
    let mut m = LightManager::new();
    m.add_light(strip_entity("s", 1));
    m.add_light(bulb_entity("b"));
    m.add_light(group_entity("g"));
    let s = m.as_string();
    assert!(s.contains("Light Strips:"));
    assert!(s.contains("Bulbs:"));
    assert!(s.contains("Bulb Groups:"));
}
