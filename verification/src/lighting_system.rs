//! The orchestrator: the canonical registry and the loaded profiles.
//!
//! The system owns the single source of truth for device topology and a
//! loader per profile. Every canonical topology change is broadcast at once:
//! each loaded profile's each instance's private registry is reconciled
//! against the canonical one, so no instance observes the canonical registry
//! changing without promptly seeing its own copy updated.
//!
//! The broadcast invokes the registry-level, topology-only reconciliation:
//! whole entries are inserted or dropped by id. The narrower per-field
//! synchronization the composite devices offer (`sync_structure` on a strip,
//! bulb or group) stays available to callers but is not wired into this
//! broadcast.

use vstd::prelude::*;

use crate::light_manager::LightManager;
use crate::light_types::{EntityView, LightingTypes};
use crate::profile::{Profile, ProfileView};
use crate::profile_loader::{instance_reconciled, LoaderView, ProfileLoader};

verus! {

// ---------------------------------------------------------------------------
// The profile table: an association list keyed by profile names.
// ---------------------------------------------------------------------------

/// Whether some entry of `s` carries the name `k`.
pub open spec fn prof_has_key(s: Seq<(String, ProfileLoader)>, k: Seq<char>) -> bool {
    exists|i: int| 0 <= i < s.len() && (#[trigger] s[i]).0@ == k
}

/// An index of the entry carrying `k`, when one exists.
pub open spec fn prof_idx_of(s: Seq<(String, ProfileLoader)>, k: Seq<char>) -> int {
    choose|i: int| 0 <= i < s.len() && (#[trigger] s[i]).0@ == k
}

/// No two entries carry the same name.
pub open spec fn prof_keys_unique(s: Seq<(String, ProfileLoader)>) -> bool {
    forall|i: int, j: int| 0 <= i < j < s.len() ==> (#[trigger] s[i]).0@ != (#[trigger] s[j]).0@
}

/// Every stored loader satisfies its representation invariant.
pub open spec fn prof_entries_wf(s: Seq<(String, ProfileLoader)>) -> bool {
    forall|i: int| 0 <= i < s.len() ==> (#[trigger] s[i]).1.wf()
}

/// The map from name to loader view that the table denotes.
pub open spec fn prof_map_of(s: Seq<(String, ProfileLoader)>) -> Map<Seq<char>, LoaderView> {
    Map::new(|k: Seq<char>| prof_has_key(s, k), |k: Seq<char>| s[prof_idx_of(s, k)].1@)
}

proof fn lemma_prof_map_index(s: Seq<(String, ProfileLoader)>, i: int)
    requires
        prof_keys_unique(s),
        0 <= i < s.len(),
    ensures
        prof_map_of(s).contains_key(s[i].0@),
        prof_map_of(s)[s[i].0@] == s[i].1@,
{
    let k = s[i].0@;
    assert(prof_has_key(s, k));
    let j = prof_idx_of(s, k);
    assert(0 <= j < s.len() && s[j].0@ == k);
    assert(j == i);
}

proof fn lemma_prof_map_push(s: Seq<(String, ProfileLoader)>, key: String, l: ProfileLoader)
    requires
        prof_keys_unique(s),
        !prof_has_key(s, key@),
    ensures
        prof_keys_unique(s.push((key, l))),
        prof_map_of(s.push((key, l))) == prof_map_of(s).insert(key@, l@),
{
    let t = s.push((key, l));
    assert forall|i: int, j: int| 0 <= i < j < t.len() implies (#[trigger] t[i]).0@ != (
    #[trigger] t[j]).0@ by {
        if j < s.len() {
        } else {
            assert(t[j].0@ == key@);
            assert(t[i] == s[i]);
        }
    }
    assert forall|k: Seq<char>| #[trigger] prof_map_of(t).contains_key(k) <==> prof_map_of(
        s,
    ).insert(key@, l@).contains_key(k) by {
        if k == key@ {
            assert(t[s.len() as int].0@ == key@);
            assert(prof_has_key(t, key@));
        } else {
            if prof_has_key(t, k) {
                let i = prof_idx_of(t, k);
                assert(0 <= i < t.len() && t[i].0@ == k);
                assert(i < s.len());
                assert(s[i].0@ == k);
            }
            if prof_has_key(s, k) {
                let i = prof_idx_of(s, k);
                assert(t[i].0@ == k);
            }
        }
    }
    assert forall|k: Seq<char>| prof_map_of(t).contains_key(k) implies #[trigger] prof_map_of(
        t,
    )[k] == prof_map_of(s).insert(key@, l@)[k] by {
        let i = prof_idx_of(t, k);
        assert(0 <= i < t.len() && t[i].0@ == k);
        if k == key@ {
            assert forall|j: int| 0 <= j < s.len() implies (#[trigger] s[j]).0@ != key@ by {}
            assert(i == s.len());
        } else {
            assert(i < s.len());
            assert(s[i].0@ == k);
            lemma_prof_map_index(s, i);
            assert(t[i] == s[i]);
        }
    }
    assert(prof_map_of(t) =~= prof_map_of(s).insert(key@, l@));
}

proof fn lemma_prof_map_remove(s: Seq<(String, ProfileLoader)>, i: int)
    requires
        prof_keys_unique(s),
        0 <= i < s.len(),
    ensures
        prof_keys_unique(s.remove(i)),
        prof_map_of(s.remove(i)) == prof_map_of(s).remove(s[i].0@),
{
    let k0 = s[i].0@;
    let t = s.remove(i);
    assert forall|a: int, b: int| 0 <= a < b < t.len() implies (#[trigger] t[a]).0@ != (
    #[trigger] t[b]).0@ by {
        let sa = if a < i { a } else { a + 1 };
        let sb = if b < i { b } else { b + 1 };
        assert(t[a] == s[sa]);
        assert(t[b] == s[sb]);
    }
    assert forall|k: Seq<char>| #[trigger] prof_map_of(t).contains_key(k) <==> prof_map_of(
        s,
    ).remove(k0).contains_key(k) by {
        if prof_has_key(t, k) {
            let a = prof_idx_of(t, k);
            let sa = if a < i { a } else { a + 1 };
            assert(t[a] == s[sa]);
            assert(s[sa].0@ == k);
            if k == k0 {
                assert(sa != i);
                assert(false);
            }
        }
        if prof_has_key(s, k) && k != k0 {
            let a = prof_idx_of(s, k);
            assert(0 <= a < s.len() && s[a].0@ == k);
            assert(a != i);
            let ta = if a < i { a } else { a - 1 };
            assert(t[ta] == s[a]);
        }
    }
    assert forall|k: Seq<char>| prof_map_of(t).contains_key(k) implies #[trigger] prof_map_of(
        t,
    )[k] == prof_map_of(s).remove(k0)[k] by {
        let a = prof_idx_of(t, k);
        assert(0 <= a < t.len() && t[a].0@ == k);
        let sa = if a < i { a } else { a + 1 };
        assert(t[a] == s[sa]);
        lemma_prof_map_index(s, sa);
    }
    assert(prof_map_of(t) =~= prof_map_of(s).remove(k0));
}

proof fn lemma_prof_map_update(s: Seq<(String, ProfileLoader)>, i: int, l: ProfileLoader)
    requires
        prof_keys_unique(s),
        0 <= i < s.len(),
    ensures
        prof_keys_unique(s.update(i, (s[i].0, l))),
        prof_map_of(s.update(i, (s[i].0, l))) == prof_map_of(s).insert(s[i].0@, l@),
{
    let t = s.update(i, (s[i].0, l));
    assert forall|a: int, b: int| 0 <= a < b < t.len() implies (#[trigger] t[a]).0@ != (
    #[trigger] t[b]).0@ by {
        assert(s[a].0@ != s[b].0@);
        assert(t[a].0@ == s[a].0@);
        assert(t[b].0@ == s[b].0@);
    }
    assert forall|k: Seq<char>| #[trigger] prof_map_of(t).contains_key(k) <==> prof_map_of(
        s,
    ).insert(s[i].0@, l@).contains_key(k) by {
        if prof_has_key(t, k) {
            let a = prof_idx_of(t, k);
            assert(0 <= a < t.len() && t[a].0@ == k);
            assert(s[a].0@ == k);
        }
        if prof_has_key(s, k) {
            let a = prof_idx_of(s, k);
            assert(t[a].0@ == k);
        }
    }
    assert forall|k: Seq<char>| prof_map_of(t).contains_key(k) implies #[trigger] prof_map_of(
        t,
    )[k] == prof_map_of(s).insert(s[i].0@, l@)[k] by {
        let a = prof_idx_of(t, k);
        assert(0 <= a < t.len() && t[a].0@ == k);
        if k == s[i].0@ {
            assert(a == i);
        } else {
            assert(a != i);
            assert(t[a] == s[a]);
            assert(s[a].0@ == k);
            lemma_prof_map_index(s, a);
        }
    }
    assert(prof_map_of(t) =~= prof_map_of(s).insert(s[i].0@, l@));
}

/// Whether the pair (profile `p`, instance `q`) occurs in the listing.
pub open spec fn pair_listed(out: Seq<(String, String)>, p: Seq<char>, q: Seq<char>) -> bool {
    exists|a: int| 0 <= a < out.len() && (#[trigger] out[a]).0@ == p && out[a].1@ == q
}

/// Whether, among the first `n` profile entries, the one named `p` has an
/// instance named `q`.
pub open spec fn inst_in_prefix(
    s: Seq<(String, ProfileLoader)>,
    n: int,
    p: Seq<char>,
    q: Seq<char>,
) -> bool {
    exists|j: int| 0 <= j < n && (#[trigger] s[j]).0@ == p && s[j].1@.instances.contains_key(q)
}

// ---------------------------------------------------------------------------
// The orchestrator.
// ---------------------------------------------------------------------------

/// The abstract value of a [`System`].
#[verifier::ext_equal]
pub ghost struct SystemView {
    pub profiles_dir: Seq<char>,
    pub profiles: Map<Seq<char>, LoaderView>,
    pub light_state: Map<u32, EntityView>,
}

/// The loader view after its every instance's private registry has been
/// reconciled against the canonical map `c`.
pub open spec fn loader_reconciled(l: LoaderView, c: Map<u32, EntityView>) -> LoaderView {
    LoaderView {
        instances: l.instances.map_values(|pv: ProfileView| instance_reconciled(pv, c)),
        ..l
    }
}

/// The orchestrator: the profiles root, a loader per registered profile, and
/// the canonical device registry.
pub struct System {
    profiles_dir: String,
    profiles: Vec<(String, ProfileLoader)>,
    light_state: LightManager,
}

impl View for System {
    type V = SystemView;

    closed spec fn view(&self) -> SystemView {
        SystemView {
            profiles_dir: self.profiles_dir@,
            profiles: prof_map_of(self.profiles@),
            light_state: self.light_state@,
        }
    }
}

impl System {
    /// The canonical registry as a value, for spec-level framing.
    pub closed spec fn spec_light_state(&self) -> LightManager {
        self.light_state
    }

    /// Representation invariant: profile names are unique, every loader and
    /// the canonical registry are well formed.
    pub closed spec fn wf(&self) -> bool {
        prof_keys_unique(self.profiles@) && prof_entries_wf(self.profiles@)
            && self.light_state.wf()
    }

    /// A fresh system with no profiles and an empty canonical registry.
    pub fn new(profiles_dir: String) -> (s: System)
        ensures
            s.wf(),
            s@ == (SystemView {
                profiles_dir: profiles_dir@,
                profiles: Map::<Seq<char>, LoaderView>::empty(),
                light_state: Map::<u32, EntityView>::empty(),
            }),
    {
        let s = System {
            profiles_dir,
            profiles: Vec::new(),
            light_state: LightManager::new(),
        };
        proof {
            assert(prof_map_of(s.profiles@) =~= Map::<Seq<char>, LoaderView>::empty());
        }
        s
    }

    /// Whether a profile with the given name is registered.
    pub fn has_profile(&self, name: &str) -> (b: bool)
        ensures
            b == self@.profiles.contains_key(name@),
    {
        let key: String = name.to_owned();
        let n = self.profiles.len();
        for i in 0..n
            invariant
                n == self.profiles@.len(),
                key@ == name@,
                forall|j: int| 0 <= j < i ==> (#[trigger] self.profiles@[j]).0@ != name@,
        {
            if self.profiles[i].0 == key {
                return true;
            }
        }
        false
    }

    /// Register a fresh loader for the named profile; a duplicate name is
    /// rejected with no side effect. The caller drives the new loader's
    /// lifecycle through `take_profile`/`put_profile`.
    pub fn add_profile(&mut self, name: String) -> (r: Result<(), ()>)
        requires
            old(self).wf(),
        ensures
            final(self).wf(),
            old(self)@.profiles.contains_key(name@) ==> *final(self) == *old(self) && r is Err,
            !old(self)@.profiles.contains_key(name@) ==> r is Ok && final(self)@ == (SystemView {
                profiles: old(self)@.profiles.insert(
                    name@,
                    LoaderView {
                        dir: old(self)@.profiles_dir,
                        name: name@,
                        instances: Map::<Seq<char>, ProfileView>::empty(),
                        state: crate::profile_loader::LoaderStateView::Unloaded,
                    },
                ),
                ..old(self)@
            }),
    {
        if self.has_profile(name.as_str()) {
            return Err(());
        }
        let loader = ProfileLoader::new(self.profiles_dir.clone(), name.clone());
        proof {
            lemma_prof_map_push(self.profiles@, name, loader);
        }
        self.profiles.push((name, loader));
        Ok(())
    }

    /// Unregister the named profile and hand its loader out — so its
    /// instances' destruction hooks can still be run — or fail when the name
    /// is unknown, with no side effect.
    pub fn remove_profile(&mut self, name: String) -> (r: Result<ProfileLoader, ()>)
        requires
            old(self).wf(),
        ensures
            final(self).wf(),
            match r {
                Ok(l) => old(self)@.profiles.contains_key(name@) && l@ == old(self)@.profiles[name@]
                    && l.wf() && final(self)@ == (SystemView {
                    profiles: old(self)@.profiles.remove(name@),
                    ..old(self)@
                }),
                Err(_) => !old(self)@.profiles.contains_key(name@) && *final(self) == *old(self),
            },
    {
        let n = self.profiles.len();
        for i in 0..n
            invariant
                self.wf(),
                *self == *old(self),
                n == self.profiles@.len(),
                forall|j: int| 0 <= j < i ==> (#[trigger] self.profiles@[j]).0@ != name@,
        {
            if self.profiles[i].0 == name {
                proof {
                    lemma_prof_map_index(self.profiles@, i as int);
                    lemma_prof_map_remove(self.profiles@, i as int);
                }
                let pair = self.profiles.remove(i);
                return Ok(pair.1);
            }
        }
        Err(())
    }

    /// Remove and hand out the named loader, to drive its lifecycle outside
    /// the system; `put_profile` hands it back.
    pub fn take_profile(&mut self, name: &str) -> (r: Option<ProfileLoader>)
        requires
            old(self).wf(),
        ensures
            final(self).wf(),
            match r {
                Some(l) => old(self)@.profiles.contains_key(name@) && l@ == old(
                    self,
                )@.profiles[name@] && l.wf() && final(self)@ == (SystemView {
                    profiles: old(self)@.profiles.remove(name@),
                    ..old(self)@
                }),
                None => !old(self)@.profiles.contains_key(name@) && *final(self) == *old(self),
            },
    {
        let owned: String = name.to_owned();
        match self.remove_profile(owned) {
            Ok(l) => Some(l),
            Err(_) => None,
        }
    }

    /// Register a loader under a currently free profile name.
    pub fn put_profile(&mut self, name: String, loader: ProfileLoader)
        requires
            old(self).wf(),
            !old(self)@.profiles.contains_key(name@),
            loader.wf(),
        ensures
            final(self).wf(),
            final(self)@ == (SystemView {
                profiles: old(self)@.profiles.insert(name@, loader@),
                ..old(self)@
            }),
    {
        proof {
            lemma_prof_map_push(self.profiles@, name, loader);
        }
        self.profiles.push((name, loader));
    }

    /// The loader registered under `name`, if any.
    pub fn get_profile(&self, name: &str) -> (r: Option<&ProfileLoader>)
        requires
            self.wf(),
        ensures
            match r {
                Some(l) => self@.profiles.contains_key(name@) && l@ == self@.profiles[name@]
                    && l.wf(),
                None => !self@.profiles.contains_key(name@),
            },
    {
        let key: String = name.to_owned();
        let n = self.profiles.len();
        for i in 0..n
            invariant
                self.wf(),
                n == self.profiles@.len(),
                key@ == name@,
                forall|j: int| 0 <= j < i ==> (#[trigger] self.profiles@[j]).0@ != name@,
        {
            if self.profiles[i].0 == key {
                proof {
                    lemma_prof_map_index(self.profiles@, i as int);
                }
                return Some(&self.profiles[i].1);
            }
        }
        None
    }

    /// The names of every registered profile.
    pub fn get_profile_names(&self) -> (r: Vec<String>)
        requires
            self.wf(),
        ensures
            forall|k: Seq<char>|
                (exists|i: int| 0 <= i < r@.len() && (#[trigger] r@[i])@ == k) <==> self@.profiles
                    .contains_key(k),
            forall|a: int, b: int| 0 <= a < b < r@.len() ==> (#[trigger] r@[a])@ != (
            #[trigger] r@[b])@,
    {
        let n = self.profiles.len();
        let mut out: Vec<String> = Vec::new();
        for i in 0..n
            invariant
                self.wf(),
                n == self.profiles@.len(),
                out@.len() == i,
                forall|j: int| 0 <= j < i ==> (#[trigger] out@[j])@ == self.profiles@[j].0@,
        {
            out.push(self.profiles[i].0.clone());
        }
        proof {
            assert forall|k: Seq<char>|
                (exists|i: int| 0 <= i < out@.len() && (#[trigger] out@[i])@ == k) implies self@
                .profiles.contains_key(k) by {
                let i = choose|i: int| 0 <= i < out@.len() && (#[trigger] out@[i])@ == k;
                assert(self.profiles@[i].0@ == k);
                assert(prof_has_key(self.profiles@, k));
            }
            assert forall|k: Seq<char>| self@.profiles.contains_key(k) implies (exists|i: int|
                0 <= i < out@.len() && (#[trigger] out@[i])@ == k) by {
                let i = prof_idx_of(self.profiles@, k);
                assert(0 <= i < self.profiles@.len() && self.profiles@[i].0@ == k);
                assert(out@[i]@ == k);
            }
        }
        out
    }

    /// Create a named instance under the named profile, its private registry
    /// seeded from the canonical registry's template. Fails — with no side
    /// effect — when the profile is unknown, the instance name is taken, or
    /// the profile's module is not loaded.
    pub fn create_instance(&mut self, profile_name: String, instance_name: String) -> (r: Result<
        (),
        (),
    >)
        requires
            old(self).wf(),
        ensures
            final(self).wf(),
            final(self)@.profiles_dir == old(self)@.profiles_dir,
            final(self)@.light_state == old(self)@.light_state,
            !old(self)@.profiles.contains_key(profile_name@) ==> *final(self) == *old(self) && r
                is Err,
            old(self)@.profiles.contains_key(profile_name@) && (old(
                self,
            )@.profiles[profile_name@].instances.contains_key(instance_name@) || !(old(
                self,
            )@.profiles[profile_name@].state is Loaded)) ==> final(self)@ == old(self)@ && r is Err,
            old(self)@.profiles.contains_key(profile_name@) && !old(
                self,
            )@.profiles[profile_name@].instances.contains_key(instance_name@) && old(
                self,
            )@.profiles[profile_name@].state is Loaded ==> r is Ok && final(self)@.profiles == old(
                self,
            )@.profiles.insert(
                profile_name@,
                LoaderView {
                    instances: old(self)@.profiles[profile_name@].instances.insert(
                        instance_name@,
                        ProfileView {
                            name: instance_name@,
                            on: false,
                            enabled: false,
                            data: Map::<Seq<char>, crate::profile::DataView>::empty(),
                            lights: old(self)@.light_state.map_values(
                                |e: EntityView| e.cleared(),
                            ),
                        },
                    ),
                    ..old(self)@.profiles[profile_name@]
                },
            ),
    {
        let n = self.profiles.len();
        for i in 0..n
            invariant
                self.wf(),
                *self == *old(self),
                n == self.profiles@.len(),
                forall|j: int| 0 <= j < i ==> (#[trigger] self.profiles@[j]).0@ != profile_name@,
        {
            if self.profiles[i].0 == profile_name {
                proof {
                    lemma_prof_map_index(self.profiles@, i as int);
                }
                let r = self.profiles[i].1.generate_instance(instance_name, &self.light_state);
                proof {
                    lemma_prof_map_update(
                        old(self).profiles@,
                        i as int,
                        self.profiles@[i as int].1,
                    );
                    assert(self.profiles@ =~= old(self).profiles@.update(
                        i as int,
                        (old(self).profiles@[i as int].0, self.profiles@[i as int].1),
                    ));
                    if r is Err {
                        assert(self.profiles@[i as int].1 == old(self).profiles@[i as int].1);
                        assert(self.profiles@ =~= old(self).profiles@);
                    }
                }
                return r;
            }
        }
        Err(())
    }

    /// Remove the named instance from the named profile and hand it out, so
    /// its destruction hook can still be run; fails when the profile or the
    /// instance is unknown, with no side effect.
    pub fn remove_instance(&mut self, profile_name: String, instance_name: String) -> (r: Result<
        Profile,
        (),
    >)
        requires
            old(self).wf(),
        ensures
            final(self).wf(),
            match r {
                Ok(p) => old(self)@.profiles.contains_key(profile_name@) && old(
                    self,
                )@.profiles[profile_name@].instances.contains_key(instance_name@) && p@ == old(
                    self,
                )@.profiles[profile_name@].instances[instance_name@] && p.wf()
                    && final(self)@ == (SystemView {
                    profiles: old(self)@.profiles.insert(
                        profile_name@,
                        LoaderView {
                            instances: old(self)@.profiles[profile_name@].instances.remove(
                                instance_name@,
                            ),
                            ..old(self)@.profiles[profile_name@]
                        },
                    ),
                    ..old(self)@
                }),
                Err(_) => (!old(self)@.profiles.contains_key(profile_name@) || !old(
                    self,
                )@.profiles[profile_name@].instances.contains_key(instance_name@)) && final(self)@
                    == old(self)@ && final(self).spec_light_state() == old(self).spec_light_state(),
            },
    {
        let n = self.profiles.len();
        for i in 0..n
            invariant
                self.wf(),
                *self == *old(self),
                n == self.profiles@.len(),
                forall|j: int| 0 <= j < i ==> (#[trigger] self.profiles@[j]).0@ != profile_name@,
        {
            if self.profiles[i].0 == profile_name {
                proof {
                    lemma_prof_map_index(self.profiles@, i as int);
                }
                let taken = self.profiles[i].1.remove_instance(instance_name.as_str());
                proof {
                    lemma_prof_map_update(
                        old(self).profiles@,
                        i as int,
                        self.profiles@[i as int].1,
                    );
                    assert(self.profiles@ =~= old(self).profiles@.update(
                        i as int,
                        (old(self).profiles@[i as int].0, self.profiles@[i as int].1),
                    ));
                    if taken is None {
                        assert(self.profiles@[i as int].1 == old(self).profiles@[i as int].1);
                        assert(self.profiles@ =~= old(self).profiles@);
                        assert(self@ =~= old(self)@);
                    }
                }
                proof {
                    if taken is Some {
                        assert(self@ =~= (SystemView {
                            profiles: old(self)@.profiles.insert(
                                profile_name@,
                                LoaderView {
                                    instances: old(self)@.profiles[profile_name@].instances
                                        .remove(instance_name@),
                                    ..old(self)@.profiles[profile_name@]
                                },
                            ),
                            ..old(self)@
                        }));
                    }
                }
                return match taken {
                    Some(p) => Ok(p),
                    None => Err(()),
                };
            }
        }
        Err(())
    }

    /// The named instance of the named profile, if both exist.
    pub fn get_instance(&self, profile_name: &str, instance_name: &str) -> (r: Option<&Profile>)
        requires
            self.wf(),
        ensures
            match r {
                Some(p) => self@.profiles.contains_key(profile_name@) && self@.profiles[profile_name@].instances.contains_key(instance_name@)
                    && p@ == self@.profiles[profile_name@].instances[instance_name@] && p.wf(),
                None => !self@.profiles.contains_key(profile_name@) || !self@.profiles[profile_name@].instances.contains_key(instance_name@),
            },
    {
        match self.get_profile(profile_name) {
            None => None,
            Some(l) => l.get_instance(instance_name),
        }
    }

    /// Every (profile name, instance name) pair currently registered.
    pub fn get_instances_key(&self) -> (r: Vec<(String, String)>)
        requires
            self.wf(),
        ensures
            forall|i: int| 0 <= i < r@.len() ==> self@.profiles.contains_key(
                (#[trigger] r@[i]).0@,
            ) && self@.profiles[r@[i].0@].instances.contains_key(r@[i].1@),
            forall|p: Seq<char>, q: Seq<char>|
                self@.profiles.contains_key(p) && #[trigger] self@.profiles[p].instances
                    .contains_key(q) ==> pair_listed(r@, p, q),
    {
        let mut out: Vec<(String, String)> = Vec::new();
        let n = self.profiles.len();
        let mut i: usize = 0;
        while i < n
            invariant
                i <= n,
                self.wf(),
                n == self.profiles@.len(),
                forall|a: int| 0 <= a < out@.len() ==> self@.profiles.contains_key(
                    (#[trigger] out@[a]).0@,
                ) && self@.profiles[out@[a].0@].instances.contains_key(out@[a].1@),
                forall|p: Seq<char>, q: Seq<char>| #[trigger] inst_in_prefix(
                    self.profiles@,
                    i as int,
                    p,
                    q,
                ) ==> pair_listed(out@, p, q),
            decreases n - i,
        {
            proof {
                lemma_prof_map_index(self.profiles@, i as int);
            }
            let pname = self.profiles[i].0.clone();
            let inames = self.profiles[i].1.get_instance_names();
            let m = inames.len();
            let ghost outer = out@;
            let mut j: usize = 0;
            while j < m
                invariant
                    j <= m,
                    self.wf(),
                    n == self.profiles@.len(),
                    i < n,
                    m == inames@.len(),
                    pname@ == self.profiles@[i as int].0@,
                    self@.profiles.contains_key(pname@),
                    self@.profiles[pname@] == self.profiles@[i as int].1@,
                    forall|k: Seq<char>|
                        (exists|b: int| 0 <= b < inames@.len() && (#[trigger] inames@[b])@ == k)
                            <==> self.profiles@[i as int].1@.instances.contains_key(k),
                    forall|a: int| 0 <= a < out@.len() ==> self@.profiles.contains_key(
                        (#[trigger] out@[a]).0@,
                    ) && self@.profiles[out@[a].0@].instances.contains_key(out@[a].1@),
                    out@.len() == outer.len() + j,
                    forall|a: int| 0 <= a < outer.len() ==> (#[trigger] out@[a]) == outer[a],
                    forall|b: int| 0 <= b < j ==> (#[trigger] out@[outer.len() + b]).0@ == pname@
                        && out@[outer.len() + b].1@ == inames@[b]@,
                decreases m - j,
            {
                out.push((pname.clone(), inames[j].clone()));
                j = j + 1;
            }
            proof {
                assert forall|p: Seq<char>, q: Seq<char>| #[trigger] inst_in_prefix(
                    self.profiles@,
                    i as int + 1,
                    p,
                    q,
                ) implies pair_listed(out@, p, q) by {
                    let jj = choose|jj: int|
                        0 <= jj < i + 1 && (#[trigger] self.profiles@[jj]).0@ == p
                            && self.profiles@[jj].1@.instances.contains_key(q);
                    if jj < i {
                        assert(inst_in_prefix(self.profiles@, i as int, p, q));
                        assert(pair_listed(outer, p, q));
                        let a = choose|a: int|
                            0 <= a < outer.len() && (#[trigger] outer[a]).0@ == p && outer[a].1@
                                == q;
                        assert(out@[a].0@ == p && out@[a].1@ == q);
                        assert(pair_listed(out@, p, q));
                    } else {
                        assert(self.profiles@[i as int].0@ == p);
                        assert(self.profiles@[i as int].1@.instances.contains_key(q));
                        let b = choose|b: int|
                            0 <= b < inames@.len() && (#[trigger] inames@[b])@ == q;
                        assert(out@[outer.len() + b].0@ == p && out@[outer.len() + b].1@ == q);
                        assert(pair_listed(out@, p, q));
                    }
                }
            }
            i = i + 1;
        }
        proof {
            assert forall|p: Seq<char>, q: Seq<char>|
                self@.profiles.contains_key(p) && #[trigger] self@.profiles[p].instances
                    .contains_key(q) implies pair_listed(out@, p, q) by {
                let j = prof_idx_of(self.profiles@, p);
                assert(0 <= j < self.profiles@.len() && self.profiles@[j].0@ == p);
                lemma_prof_map_index(self.profiles@, j);
                assert(inst_in_prefix(self.profiles@, n as int, p, q));
            }
        }
        out
    }
}

impl System {
    /// Reconcile every loaded profile's every instance's private registry
    /// against the canonical one.
    fn update_light_structure(&mut self)
        requires
            old(self).wf(),
        ensures
            final(self).wf(),
            final(self)@ == (SystemView {
                profiles: old(self)@.profiles.map_values(
                    |l: LoaderView| loader_reconciled(l, old(self)@.light_state),
                ),
                ..old(self)@
            }),
            final(self).spec_light_state() == old(self).spec_light_state(),
    {
        let ghost c = self.light_state@;
        let n = self.profiles.len();
        for i in 0..n
            invariant
                self.light_state == old(self).spec_light_state(),
                self.light_state.wf(),
                c == self.light_state@,
                n == self.profiles@.len(),
                self.profiles@.len() == old(self).profiles@.len(),
                self.profiles_dir == old(self).profiles_dir,
                prof_keys_unique(old(self).profiles@),
                prof_entries_wf(old(self).profiles@),
                forall|j: int| 0 <= j < n ==> (#[trigger] self.profiles@[j]).0@ == old(
                    self,
                ).profiles@[j].0@,
                forall|j: int| 0 <= j < i ==> (#[trigger] self.profiles@[j]).1@
                    == loader_reconciled(old(self).profiles@[j].1@, c),
                forall|j: int| 0 <= j < i ==> (#[trigger] self.profiles@[j]).1.wf(),
                forall|j: int| i <= j < n ==> (#[trigger] self.profiles@[j]).1 == old(
                    self,
                ).profiles@[j].1,
        {
            let ghost pre = self.profiles@;
            let pair = self.profiles.remove(i);
            let (nm, mut ldr) = pair;
            let ghost l0 = ldr;
            ldr.update_light_structure(&self.light_state);
            proof {
                assert(l0 == old(self).profiles@[i as int].1);
                assert(ldr@ =~= loader_reconciled(l0@, c));
            }
            self.profiles.insert(i, (nm, ldr));
            proof {
                assert(self.profiles@ =~= pre.update(i as int, (nm, ldr)));
            }
        }
        proof {
            let ghost g = |l: LoaderView| loader_reconciled(l, c);
            assert forall|a: int, b: int| 0 <= a < b < self.profiles@.len() implies (
            #[trigger] self.profiles@[a]).0@ != (#[trigger] self.profiles@[b]).0@ by {
                assert(old(self).profiles@[a].0@ != old(self).profiles@[b].0@);
            }
            assert forall|k: Seq<char>| #[trigger] prof_map_of(self.profiles@).contains_key(k)
                <==> prof_map_of(old(self).profiles@).map_values(g).contains_key(k) by {
                if prof_has_key(self.profiles@, k) {
                    let j = prof_idx_of(self.profiles@, k);
                    assert(0 <= j < self.profiles@.len() && self.profiles@[j].0@ == k);
                    assert(old(self).profiles@[j].0@ == k);
                    assert(prof_has_key(old(self).profiles@, k));
                }
                if prof_has_key(old(self).profiles@, k) {
                    let j = prof_idx_of(old(self).profiles@, k);
                    assert(0 <= j < old(self).profiles@.len() && old(self).profiles@[j].0@ == k);
                    assert(self.profiles@[j].0@ == k);
                    assert(prof_has_key(self.profiles@, k));
                }
            }
            assert forall|k: Seq<char>| prof_map_of(self.profiles@).contains_key(k) implies
                #[trigger] prof_map_of(self.profiles@)[k] == prof_map_of(
                old(self).profiles@,
            ).map_values(g)[k] by {
                let j = prof_idx_of(self.profiles@, k);
                assert(0 <= j < self.profiles@.len() && self.profiles@[j].0@ == k);
                assert(prof_keys_unique(self.profiles@));
                lemma_prof_map_index(self.profiles@, j);
                assert(old(self).profiles@[j].0@ == k);
                lemma_prof_map_index(old(self).profiles@, j);
                assert(prof_map_of(old(self).profiles@).map_values(g)[k] == g(
                    prof_map_of(old(self).profiles@)[k],
                ));
            }
            assert(prof_map_of(self.profiles@) =~= prof_map_of(old(self).profiles@).map_values(
                g,
            ));
            assert(self@ =~= (SystemView {
                profiles: old(self)@.profiles.map_values(
                    |l: LoaderView| loader_reconciled(l, old(self)@.light_state),
                ),
                ..old(self)@
            }));
        }
    }

    /// Insert a device into the canonical registry under a freshly allocated
    /// id, then immediately broadcast: every loaded profile's every
    /// instance's private registry is reconciled against the new canonical
    /// topology before the call returns.
    pub fn add_light(&mut self, light: LightingTypes) -> (id: u32)
        requires
            old(self).wf(),
            light@.wf(),
            old(self)@.light_state.dom().len() + old(self).spec_light_state().spec_next_id()
                < 0xffff_ffffu32,
        ensures
            final(self).wf(),
            !old(self)@.light_state.contains_key(id),
            old(self).spec_light_state().spec_next_id() <= id,
            forall|k: u32| old(self).spec_light_state().spec_next_id() <= k < id ==> old(
                self,
            )@.light_state.contains_key(k),
            final(self).spec_light_state().spec_next_id() == id + 1,
            final(self)@.light_state == old(self)@.light_state.insert(id, light@),
            final(self)@.profiles_dir == old(self)@.profiles_dir,
            final(self)@.profiles == old(self)@.profiles.map_values(
                |l: LoaderView| loader_reconciled(l, old(self)@.light_state.insert(id, light@)),
            ),
    {
        let out = self.light_state.add_light(light);
        self.update_light_structure();
        out
    }

    /// Remove a device from the canonical registry, then immediately
    /// broadcast the change into every instance's private registry.
    pub fn remove_light(&mut self, id: u32)
        requires
            old(self).wf(),
        ensures
            final(self).wf(),
            final(self)@.light_state == old(self)@.light_state.remove(id),
            final(self)@.profiles_dir == old(self)@.profiles_dir,
            final(self)@.profiles == old(self)@.profiles.map_values(
                |l: LoaderView| loader_reconciled(l, old(self)@.light_state.remove(id)),
            ),
    {
        self.light_state.remove_light(id);
        self.update_light_structure();
    }

    /// The canonical entity stored at `id`, if any.
    pub fn get_light(&self, id: u32) -> (r: Option<&LightingTypes>)
        requires
            self.wf(),
        ensures
            match r {
                Some(e) => self@.light_state.contains_key(id) && e@ == self@.light_state[id]
                    && e@.wf(),
                None => !self@.light_state.contains_key(id),
            },
    {
        self.light_state.get_light(id)
    }

    /// The ids of every canonical device, without duplicates.
    pub fn get_lights_id(&self) -> (r: Vec<u32>)
        requires
            self.wf(),
        ensures
            r@.no_duplicates(),
            forall|k: u32| #[trigger] r@.contains(k) <==> self@.light_state.contains_key(k),
    {
        self.light_state.get_all_ids()
    }

    /// A read-only view of the canonical registry.
    pub fn light_state(&self) -> (r: &LightManager)
        ensures
            *r == self.spec_light_state(),
            r@ == self@.light_state,
            self.wf() ==> r.wf(),
    {
        &self.light_state
    }
}


} // verus!
