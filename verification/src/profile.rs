//! A live, named activation of a loaded profile.
//!
//! An instance owns a private device registry, an on/off switch, and a small
//! keyed scratch store a module uses to carry effect parameters between
//! ticks. The module interface every loaded profile implements is declared
//! here as well.

use vstd::prelude::*;

use crate::color::Color;
use crate::light_manager::LightManager;
use crate::light_types::EntityView;

verus! {

/// One scratch value an effect module may store on an instance.
#[derive(Debug, Clone)]
pub enum ProfileData {
    Int(i32),
    Str(String),
    Bool(bool),
    Color(Color),
}

/// The abstract value of a [`ProfileData`].
pub ghost enum DataView {
    Int(i32),
    Str(Seq<char>),
    Bool(bool),
    Color(Color),
}

impl View for ProfileData {
    type V = DataView;

    open spec fn view(&self) -> DataView {
        match self {
            ProfileData::Int(x) => DataView::Int(*x),
            ProfileData::Str(x) => DataView::Str(x@),
            ProfileData::Bool(x) => DataView::Bool(*x),
            ProfileData::Color(x) => DataView::Color(*x),
        }
    }
}

// ---------------------------------------------------------------------------
// The scratch store: an association list keyed by strings.
// ---------------------------------------------------------------------------

/// Whether some entry of `s` carries the key `k`.
pub open spec fn data_has_key(s: Seq<(String, ProfileData)>, k: Seq<char>) -> bool {
    exists|i: int| 0 <= i < s.len() && (#[trigger] s[i]).0@ == k
}

/// An index of the entry carrying `k`, when one exists.
pub open spec fn data_idx_of(s: Seq<(String, ProfileData)>, k: Seq<char>) -> int {
    choose|i: int| 0 <= i < s.len() && (#[trigger] s[i]).0@ == k
}

/// No two entries carry the same key.
pub open spec fn data_keys_unique(s: Seq<(String, ProfileData)>) -> bool {
    forall|i: int, j: int| 0 <= i < j < s.len() ==> (#[trigger] s[i]).0@ != (#[trigger] s[j]).0@
}

/// The map from key to value view that the scratch store denotes.
pub open spec fn data_map_of(s: Seq<(String, ProfileData)>) -> Map<Seq<char>, DataView> {
    Map::new(|k: Seq<char>| data_has_key(s, k), |k: Seq<char>| s[data_idx_of(s, k)].1@)
}

proof fn lemma_data_map_index(s: Seq<(String, ProfileData)>, i: int)
    requires
        data_keys_unique(s),
        0 <= i < s.len(),
    ensures
        data_map_of(s).contains_key(s[i].0@),
        data_map_of(s)[s[i].0@] == s[i].1@,
{
    let k = s[i].0@;
    assert(data_has_key(s, k));
    let j = data_idx_of(s, k);
    assert(0 <= j < s.len() && s[j].0@ == k);
    assert(j == i);
}

proof fn lemma_data_map_push(s: Seq<(String, ProfileData)>, key: String, v: ProfileData)
    requires
        data_keys_unique(s),
        !data_has_key(s, key@),
    ensures
        data_keys_unique(s.push((key, v))),
        data_map_of(s.push((key, v))) == data_map_of(s).insert(key@, v@),
{
    let t = s.push((key, v));
    assert forall|i: int, j: int| 0 <= i < j < t.len() implies (#[trigger] t[i]).0@ != (
    #[trigger] t[j]).0@ by {
        if j < s.len() {
        } else {
            assert(t[j].0@ == key@);
            assert(t[i] == s[i]);
        }
    }
    assert forall|k: Seq<char>| #[trigger] data_map_of(t).contains_key(k) <==> data_map_of(
        s,
    ).insert(key@, v@).contains_key(k) by {
        if k == key@ {
            assert(t[s.len() as int].0@ == key@);
            assert(data_has_key(t, key@));
        } else {
            if data_has_key(t, k) {
                let i = data_idx_of(t, k);
                assert(0 <= i < t.len() && t[i].0@ == k);
                assert(i < s.len());
                assert(s[i].0@ == k);
            }
            if data_has_key(s, k) {
                let i = data_idx_of(s, k);
                assert(t[i].0@ == k);
            }
        }
    }
    assert forall|k: Seq<char>| data_map_of(t).contains_key(k) implies #[trigger] data_map_of(
        t,
    )[k] == data_map_of(s).insert(key@, v@)[k] by {
        let i = data_idx_of(t, k);
        assert(0 <= i < t.len() && t[i].0@ == k);
        if k == key@ {
            assert forall|j: int| 0 <= j < s.len() implies (#[trigger] s[j]).0@ != key@ by {}
            assert(i == s.len());
        } else {
            assert(i < s.len());
            assert(s[i].0@ == k);
            lemma_data_map_index(s, i);
            assert(t[i] == s[i]);
        }
    }
    assert(data_map_of(t) =~= data_map_of(s).insert(key@, v@));
}

proof fn lemma_data_map_update(s: Seq<(String, ProfileData)>, i: int, key: String, v: ProfileData)
    requires
        data_keys_unique(s),
        0 <= i < s.len(),
        s[i].0@ == key@,
    ensures
        data_keys_unique(s.update(i, (key, v))),
        data_map_of(s.update(i, (key, v))) == data_map_of(s).insert(key@, v@),
{
    let t = s.update(i, (key, v));
    assert forall|a: int, b: int| 0 <= a < b < t.len() implies (#[trigger] t[a]).0@ != (
    #[trigger] t[b]).0@ by {
        assert(s[a].0@ != s[b].0@);
        assert(t[a].0@ == s[a].0@);
        assert(t[b].0@ == s[b].0@);
    }
    assert forall|k: Seq<char>| #[trigger] data_map_of(t).contains_key(k) <==> data_map_of(
        s,
    ).insert(key@, v@).contains_key(k) by {
        if data_has_key(t, k) {
            let a = data_idx_of(t, k);
            assert(0 <= a < t.len() && t[a].0@ == k);
            assert(s[a].0@ == k);
        }
        if data_has_key(s, k) {
            let a = data_idx_of(s, k);
            assert(t[a].0@ == k);
        }
    }
    assert forall|k: Seq<char>| data_map_of(t).contains_key(k) implies #[trigger] data_map_of(
        t,
    )[k] == data_map_of(s).insert(key@, v@)[k] by {
        let a = data_idx_of(t, k);
        assert(0 <= a < t.len() && t[a].0@ == k);
        if k == key@ {
            assert(a == i);
        } else {
            assert(a != i);
            assert(t[a] == s[a]);
            assert(s[a].0@ == k);
            lemma_data_map_index(s, a);
        }
    }
    assert(data_map_of(t) =~= data_map_of(s).insert(key@, v@));
}

// ---------------------------------------------------------------------------
// The instance.
// ---------------------------------------------------------------------------

/// The abstract value of a [`Profile`] instance.
#[verifier::ext_equal]
pub ghost struct ProfileView {
    pub name: Seq<char>,
    pub on: bool,
    pub enabled: bool,
    pub data: Map<Seq<char>, DataView>,
    pub lights: Map<u32, EntityView>,
}

/// A live activation of a loaded profile: its name, switches, scratch store,
/// and private device registry.
pub struct Profile {
    lights: LightManager,
    name: String,
    on: bool,
    enabled: bool,
    data: Vec<(String, ProfileData)>,
}

impl View for Profile {
    type V = ProfileView;

    closed spec fn view(&self) -> ProfileView {
        ProfileView {
            name: self.name@,
            on: self.on,
            enabled: self.enabled,
            data: data_map_of(self.data@),
            lights: self.lights@,
        }
    }
}

impl Profile {
    /// The private registry as a value, for spec-level framing.
    pub closed spec fn spec_lights(&self) -> LightManager {
        self.lights
    }

    /// Representation invariant: scratch keys are unique and the private
    /// registry is well formed.
    pub closed spec fn wf(&self) -> bool {
        data_keys_unique(self.data@) && self.lights.wf()
    }

    /// A new instance with an empty scratch store.
    pub fn new(name: String, on: bool, enabled: bool, lights: LightManager) -> (p: Profile)
        requires
            lights.wf(),
        ensures
            p.wf(),
            p@ == (ProfileView {
                name: name@,
                on,
                enabled,
                data: Map::<Seq<char>, DataView>::empty(),
                lights: lights@,
            }),
    {
        let p = Profile { name, on, enabled, lights, data: Vec::new() };
        proof {
            assert(data_map_of(p.data@) =~= Map::<Seq<char>, DataView>::empty());
        }
        p
    }

    /// The instance's name.
    pub fn instance_name(&self) -> (n: String)
        ensures
            n@ == self@.name,
    {
        self.name.clone()
    }

    /// Rename the instance.
    pub fn set_instance_name(&mut self, name: String)
        ensures
            final(self)@ == (ProfileView { name: name@, ..old(self)@ }),
            final(self).wf() == old(self).wf(),
            final(self).spec_lights() == old(self).spec_lights(),
    {
        self.name = name;
    }

    /// Whether the instance is running: only running instances are ticked.
    pub fn is_on(&self) -> (b: bool)
        ensures
            b == self@.on,
    {
        self.on
    }

    /// Switch the instance on or off.
    pub fn set_on(&mut self, state: bool)
        ensures
            final(self)@ == (ProfileView { on: state, ..old(self)@ }),
            final(self).wf() == old(self).wf(),
            final(self).spec_lights() == old(self).spec_lights(),
    {
        self.on = state;
    }

    /// Whether the instance is enabled.
    pub fn is_enabled(&self) -> (b: bool)
        ensures
            b == self@.enabled,
    {
        self.enabled
    }

    /// The scratch value stored under `key`, if any.
    pub fn get_data(&self, key: &str) -> (r: Option<&ProfileData>)
        requires
            self.wf(),
        ensures
            match r {
                Some(v) => self@.data.contains_key(key@) && v@ == self@.data[key@],
                None => !self@.data.contains_key(key@),
            },
    {
        let key_owned: String = key.to_owned();
        let n = self.data.len();
        for i in 0..n
            invariant
                self.wf(),
                n == self.data@.len(),
                key_owned@ == key@,
                forall|j: int| 0 <= j < i ==> (#[trigger] self.data@[j]).0@ != key@,
        {
            if self.data[i].0 == key_owned {
                proof {
                    lemma_data_map_index(self.data@, i as int);
                }
                return Some(&self.data[i].1);
            }
        }
        None
    }

    /// The integer stored under `key`, if the key holds an integer.
    pub fn get_int(&self, key: &str) -> (r: Option<i32>)
        requires
            self.wf(),
        ensures
            r == (if self@.data.contains_key(key@) && self@.data[key@] is Int {
                Some(self@.data[key@]->Int_0)
            } else {
                Option::<i32>::None
            }),
    {
        match self.get_data(key) {
            Some(ProfileData::Int(y)) => Some(*y),
            _ => None,
        }
    }

    /// The color stored under `key`, if the key holds a color.
    pub fn get_color(&self, key: &str) -> (r: Option<Color>)
        requires
            self.wf(),
        ensures
            r == (if self@.data.contains_key(key@) && self@.data[key@] is Color {
                Some(self@.data[key@]->Color_0)
            } else {
                Option::<Color>::None
            }),
    {
        match self.get_data(key) {
            Some(ProfileData::Color(y)) => Some(*y),
            _ => None,
        }
    }

    /// Store a scratch value under `key`, replacing any present value.
    pub fn set_data(&mut self, key: &str, value: ProfileData)
        requires
            old(self).wf(),
        ensures
            final(self).wf(),
            final(self)@ == (ProfileView {
                data: old(self)@.data.insert(key@, value@),
                ..old(self)@
            }),
            final(self).spec_lights() == old(self).spec_lights(),
    {
        let key_owned: String = key.to_owned();
        let n = self.data.len();
        for i in 0..n
            invariant
                self.wf(),
                *self == *old(self),
                n == self.data@.len(),
                key_owned@ == key@,
                forall|j: int| 0 <= j < i ==> (#[trigger] self.data@[j]).0@ != key@,
        {
            if self.data[i].0 == key_owned {
                proof {
                    lemma_data_map_update(self.data@, i as int, key_owned, value);
                }
                let pair = (key_owned, value);
                self.data.set(i, pair);
                return ;
            }
        }
        proof {
            lemma_data_map_push(self.data@, key_owned, value);
        }
        self.data.push((key_owned, value));
    }

    /// Reconcile the private registry's topology against the canonical one.
    pub fn reconcile_lights(&mut self, state: &LightManager)
        requires
            old(self).wf(),
            state.wf(),
        ensures
            final(self).wf(),
            final(self)@ == (ProfileView {
                name: old(self)@.name,
                on: old(self)@.on,
                enabled: old(self)@.enabled,
                data: old(self)@.data,
                lights: crate::light_manager::reconciled(old(self)@.lights, state@),
            }),
    {
        self.lights.sync_structure(state);
    }

    /// The private device registry.
    pub fn lights(&self) -> (r: &LightManager)
        ensures
            *r == self.spec_lights(),
            r@ == self@.lights,
            self.wf() ==> r.wf(),
    {
        &self.lights
    }

    /// Mutable access to the private device registry.
    pub fn m(&mut self) -> (r: &mut LightManager)
        ensures
            *r == old(self).spec_lights(),
            old(self).wf() ==> old(self).spec_lights().wf(),
            *final(r) == final(self).spec_lights(),
            final(self)@ == (ProfileView { lights: final(r)@, ..old(self)@ }),
            old(self).wf() && final(r).wf() ==> final(self).wf(),
    {
        &mut self.lights
    }
}

/// The interface every effect module implements: a factory-created object
/// whose hooks are called with the instance they act on. `created` and
/// `destroy` default to doing nothing.
pub trait ProfileInterface {
    /// The module's display name.
    fn profile_name(&self) -> String;

    /// Called once per tick for every running instance.
    fn update(&self, parent: &mut Profile);

    /// Called right after an instance is created.
    fn created(&self, parent: &mut Profile) {
    }

    /// Called right before an instance is destroyed.
    fn destroy(&self, parent: &mut Profile) {
    }
}

} // verus!
