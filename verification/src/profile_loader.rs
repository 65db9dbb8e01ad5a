//! The per-profile lifecycle state machine.
//!
//! A loader walks one profile through scaffold, build and load, and then
//! manages the instances created from the loaded module. The filesystem,
//! process and dynamic-library work itself happens outside this crate; the
//! loader consumes each step's outcome as an event, decides the transition,
//! and keeps the bookkeeping that the decisions are proved against. The
//! lifecycle is monotonic forward; `unload` empties the instance table
//! without moving the recorded state backward.

use vstd::prelude::*;
use vstd::string::*;

use crate::build_protocol::{parse_build_output, spec_build_report};
use crate::light_manager::LightManager;
use crate::profile::{Profile, ProfileView};

verus! {

/// Where a loader stands in the scaffold/build/load lifecycle.
#[derive(Debug)]
pub enum ProfileLoaderState {
    Unloaded,
    Exists,
    Compiled(String),
    FailedCompile(String),
    Loaded,
}

/// The abstract value of a [`ProfileLoaderState`].
pub ghost enum LoaderStateView {
    Unloaded,
    Exists,
    Compiled(Seq<char>),
    FailedCompile(Seq<char>),
    Loaded,
}

impl View for ProfileLoaderState {
    type V = LoaderStateView;

    open spec fn view(&self) -> LoaderStateView {
        match self {
            ProfileLoaderState::Unloaded => LoaderStateView::Unloaded,
            ProfileLoaderState::Exists => LoaderStateView::Exists,
            ProfileLoaderState::Compiled(d) => LoaderStateView::Compiled(d@),
            ProfileLoaderState::FailedCompile(d) => LoaderStateView::FailedCompile(d@),
            ProfileLoaderState::Loaded => LoaderStateView::Loaded,
        }
    }
}

/// Why a lifecycle step was refused.
#[derive(Debug, Clone, Copy, PartialEq, Eq, Structural)]
pub enum LoaderError {
    /// Scaffolding aborted on an I/O failure; the loader stays retryable.
    ScaffoldFailed,
    /// A build was requested but the profile directory does not exist.
    DirectoryMissing,
    /// The build tool ran and reported failure, or could not run at all.
    CompileFailed,
    /// The compiled module could not be loaded.
    LoadFailed,
    /// The module loaded but its factory symbol was not found.
    MissingSymbol,
}

/// What the external build attempt yielded.
pub enum BuildInput {
    /// The profile directory was absent.
    DirMissing,
    /// The build tool could not be started.
    NoProcess,
    /// The build tool ran; this is its entire captured standard output.
    Output(String),
}

/// What the external module-load attempt yielded.
pub enum LoadOutcome {
    /// The dynamic module could not be loaded.
    Failed,
    /// The module loaded but the factory symbol was missing.
    MissingSymbol,
    /// The module loaded and its factory produced an interface.
    Loaded,
}

// ---------------------------------------------------------------------------
// The instance table: an association list keyed by instance names.
// ---------------------------------------------------------------------------

/// Whether some entry of `s` carries the name `k`.
pub open spec fn inst_has_key(s: Seq<(String, Profile)>, k: Seq<char>) -> bool {
    exists|i: int| 0 <= i < s.len() && (#[trigger] s[i]).0@ == k
}

/// An index of the entry carrying `k`, when one exists.
pub open spec fn inst_idx_of(s: Seq<(String, Profile)>, k: Seq<char>) -> int {
    choose|i: int| 0 <= i < s.len() && (#[trigger] s[i]).0@ == k
}

/// No two entries carry the same name.
pub open spec fn inst_keys_unique(s: Seq<(String, Profile)>) -> bool {
    forall|i: int, j: int| 0 <= i < j < s.len() ==> (#[trigger] s[i]).0@ != (#[trigger] s[j]).0@
}

/// Every stored instance satisfies its representation invariant.
pub open spec fn inst_entries_wf(s: Seq<(String, Profile)>) -> bool {
    forall|i: int| 0 <= i < s.len() ==> (#[trigger] s[i]).1.wf()
}

/// The map from name to instance view that the table denotes.
pub open spec fn inst_map_of(s: Seq<(String, Profile)>) -> Map<Seq<char>, ProfileView> {
    Map::new(|k: Seq<char>| inst_has_key(s, k), |k: Seq<char>| s[inst_idx_of(s, k)].1@)
}

proof fn lemma_inst_map_index(s: Seq<(String, Profile)>, i: int)
    requires
        inst_keys_unique(s),
        0 <= i < s.len(),
    ensures
        inst_map_of(s).contains_key(s[i].0@),
        inst_map_of(s)[s[i].0@] == s[i].1@,
{
    let k = s[i].0@;
    assert(inst_has_key(s, k));
    let j = inst_idx_of(s, k);
    assert(0 <= j < s.len() && s[j].0@ == k);
    assert(j == i);
}

proof fn lemma_inst_map_push(s: Seq<(String, Profile)>, key: String, p: Profile)
    requires
        inst_keys_unique(s),
        !inst_has_key(s, key@),
    ensures
        inst_keys_unique(s.push((key, p))),
        inst_map_of(s.push((key, p))) == inst_map_of(s).insert(key@, p@),
{
    let t = s.push((key, p));
    assert forall|i: int, j: int| 0 <= i < j < t.len() implies (#[trigger] t[i]).0@ != (
    #[trigger] t[j]).0@ by {
        if j < s.len() {
        } else {
            assert(t[j].0@ == key@);
            assert(t[i] == s[i]);
        }
    }
    assert forall|k: Seq<char>| #[trigger] inst_map_of(t).contains_key(k) <==> inst_map_of(
        s,
    ).insert(key@, p@).contains_key(k) by {
        if k == key@ {
            assert(t[s.len() as int].0@ == key@);
            assert(inst_has_key(t, key@));
        } else {
            if inst_has_key(t, k) {
                let i = inst_idx_of(t, k);
                assert(0 <= i < t.len() && t[i].0@ == k);
                assert(i < s.len());
                assert(s[i].0@ == k);
            }
            if inst_has_key(s, k) {
                let i = inst_idx_of(s, k);
                assert(t[i].0@ == k);
            }
        }
    }
    assert forall|k: Seq<char>| inst_map_of(t).contains_key(k) implies #[trigger] inst_map_of(
        t,
    )[k] == inst_map_of(s).insert(key@, p@)[k] by {
        let i = inst_idx_of(t, k);
        assert(0 <= i < t.len() && t[i].0@ == k);
        if k == key@ {
            assert forall|j: int| 0 <= j < s.len() implies (#[trigger] s[j]).0@ != key@ by {}
            assert(i == s.len());
        } else {
            assert(i < s.len());
            assert(s[i].0@ == k);
            lemma_inst_map_index(s, i);
            assert(t[i] == s[i]);
        }
    }
    assert(inst_map_of(t) =~= inst_map_of(s).insert(key@, p@));
}

proof fn lemma_inst_map_remove(s: Seq<(String, Profile)>, i: int)
    requires
        inst_keys_unique(s),
        0 <= i < s.len(),
    ensures
        inst_keys_unique(s.remove(i)),
        inst_map_of(s.remove(i)) == inst_map_of(s).remove(s[i].0@),
{
    let k0 = s[i].0@;
    let t = s.remove(i);
    assert forall|a: int, b: int| 0 <= a < b < t.len() implies (#[trigger] t[a]).0@ != (
    #[trigger] t[b]).0@ by {
        let sa = if a < i { a } else { a + 1 };
        let sb = if b < i { b } else { b + 1 };
        assert(t[a] == s[sa]);
        assert(t[b] == s[sb]);
    }
    assert forall|k: Seq<char>| #[trigger] inst_map_of(t).contains_key(k) <==> inst_map_of(
        s,
    ).remove(k0).contains_key(k) by {
        if inst_has_key(t, k) {
            let a = inst_idx_of(t, k);
            let sa = if a < i { a } else { a + 1 };
            assert(t[a] == s[sa]);
            assert(s[sa].0@ == k);
            if k == k0 {
                assert(sa != i);
                assert(false);
            }
        }
        if inst_has_key(s, k) && k != k0 {
            let a = inst_idx_of(s, k);
            assert(0 <= a < s.len() && s[a].0@ == k);
            assert(a != i);
            let ta = if a < i { a } else { a - 1 };
            assert(t[ta] == s[a]);
        }
    }
    assert forall|k: Seq<char>| inst_map_of(t).contains_key(k) implies #[trigger] inst_map_of(
        t,
    )[k] == inst_map_of(s).remove(k0)[k] by {
        let a = inst_idx_of(t, k);
        assert(0 <= a < t.len() && t[a].0@ == k);
        let sa = if a < i { a } else { a + 1 };
        assert(t[a] == s[sa]);
        lemma_inst_map_index(s, sa);
    }
    assert(inst_map_of(t) =~= inst_map_of(s).remove(k0));
}

// ---------------------------------------------------------------------------
// The loader.
// ---------------------------------------------------------------------------

/// The abstract value of a [`ProfileLoader`].
#[verifier::ext_equal]
pub ghost struct LoaderView {
    pub dir: Seq<char>,
    pub name: Seq<char>,
    pub instances: Map<Seq<char>, ProfileView>,
    pub state: LoaderStateView,
}

/// The lifecycle bookkeeping of one profile: its directory and name, the
/// recorded lifecycle state, and the live instances by name.
pub struct ProfileLoader {
    dir: String,
    name: String,
    instances: Vec<(String, Profile)>,
    state: ProfileLoaderState,
}

impl View for ProfileLoader {
    type V = LoaderView;

    closed spec fn view(&self) -> LoaderView {
        LoaderView {
            dir: self.dir@,
            name: self.name@,
            instances: inst_map_of(self.instances@),
            state: self.state@,
        }
    }
}

impl ProfileLoader {
    /// Representation invariant: instance names are unique and every stored
    /// instance is well formed.
    pub closed spec fn wf(&self) -> bool {
        inst_keys_unique(self.instances@) && inst_entries_wf(self.instances@)
    }

    /// A fresh loader for the named profile under the profiles root, with no
    /// instances, at the start of the lifecycle.
    pub fn new(dir: String, name: String) -> (l: ProfileLoader)
        ensures
            l.wf(),
            l@ == (LoaderView {
                dir: dir@,
                name: name@,
                instances: Map::<Seq<char>, ProfileView>::empty(),
                state: LoaderStateView::Unloaded,
            }),
    {
        let l = ProfileLoader {
            dir,
            name,
            instances: Vec::new(),
            state: ProfileLoaderState::Unloaded,
        };
        proof {
            assert(inst_map_of(l.instances@) =~= Map::<Seq<char>, ProfileView>::empty());
        }
        l
    }

    /// The profiles root directory this loader scaffolds under.
    pub fn get_dir(&self) -> (d: String)
        ensures
            d@ == self@.dir,
    {
        self.dir.clone()
    }

    /// The profile's name.
    pub fn get_name(&self) -> (n: String)
        ensures
            n@ == self@.name,
    {
        self.name.clone()
    }

    /// Whether the scaffold step should touch the filesystem at all: only a
    /// loader still at the start of the lifecycle scaffolds.
    pub fn scaffold_needed(&self) -> (b: bool)
        ensures
            b == (self@.state is Unloaded),
    {
        match self.state {
            ProfileLoaderState::Unloaded => true,
            _ => false,
        }
    }

    /// Record the outcome of the scaffold step. From the start of the
    /// lifecycle, success moves the loader to `Exists` and a failure leaves
    /// it retryable where it was; from any later state the call is a no-op.
    pub fn new_profile(&mut self, io_ok: bool) -> (r: Result<(), LoaderError>)
        ensures
            final(self).wf() == old(self).wf(),
            final(self)@.dir == old(self)@.dir,
            final(self)@.name == old(self)@.name,
            final(self)@.instances == old(self)@.instances,
            old(self)@.state is Unloaded && io_ok ==> final(self)@.state is Exists && r is Ok,
            old(self)@.state is Unloaded && !io_ok ==> *final(self) == *old(self) && r == Err::<
                (),
                LoaderError,
            >(LoaderError::ScaffoldFailed),
            !(old(self)@.state is Unloaded) ==> *final(self) == *old(self) && r is Ok,
    {
        match self.state {
            ProfileLoaderState::Unloaded => {
                if io_ok {
                    self.state = ProfileLoaderState::Exists;
                    Ok(())
                } else {
                    Err(LoaderError::ScaffoldFailed)
                }
            },
            _ => Ok(()),
        }
    }

    /// Whether the build step should run the build tool: only a scaffolded
    /// loader builds.
    pub fn build_needed(&self) -> (b: bool)
        ensures
            b == (self@.state is Exists),
    {
        match self.state {
            ProfileLoaderState::Exists => true,
            _ => false,
        }
    }

    /// Record the outcome of the external build. A scaffolded loader moves to
    /// `Compiled` exactly when the captured output's terminal message reports
    /// success, and to `FailedCompile` — with the accumulated diagnostics, or
    /// with the reason the build could not run — otherwise. Asking for a
    /// build before the scaffold step fails and changes nothing; after a
    /// build the call is a no-op.
    pub fn compile_profile(&mut self, input: BuildInput) -> (r: Result<(), LoaderError>)
        ensures
            final(self).wf() == old(self).wf(),
            final(self)@.dir == old(self)@.dir,
            final(self)@.name == old(self)@.name,
            final(self)@.instances == old(self)@.instances,
            old(self)@.state is Unloaded ==> *final(self) == *old(self) && r == Err::<
                (),
                LoaderError,
            >(LoaderError::DirectoryMissing),
            !(old(self)@.state is Unloaded) && !(old(self)@.state is Exists) ==> *final(self)
                == *old(self) && r is Ok,
            old(self)@.state is Exists ==> match input {
                BuildInput::DirMissing => final(self)@.state == LoaderStateView::FailedCompile(
                    "Directory does not exists"@,
                ) && r == Err::<(), LoaderError>(LoaderError::CompileFailed),
                BuildInput::NoProcess => final(self)@.state == LoaderStateView::FailedCompile(
                    "Failed to start compile process"@,
                ) && r == Err::<(), LoaderError>(LoaderError::CompileFailed),
                BuildInput::Output(out) => {
                    &&& (spec_build_report(out@).0 ==> final(self)@.state
                        == LoaderStateView::Compiled(spec_build_report(out@).1) && r is Ok)
                    &&& (!spec_build_report(out@).0 ==> final(self)@.state
                        == LoaderStateView::FailedCompile(spec_build_report(out@).1) && r
                        == Err::<(), LoaderError>(LoaderError::CompileFailed))
                },
            },
    {
        match self.state {
            ProfileLoaderState::Unloaded => Err(LoaderError::DirectoryMissing),
            ProfileLoaderState::Exists => {
                match input {
                    BuildInput::DirMissing => {
                        self.state = ProfileLoaderState::FailedCompile(
                            String::from_str("Directory does not exists"),
                        );
                        Err(LoaderError::CompileFailed)
                    },
                    BuildInput::NoProcess => {
                        self.state = ProfileLoaderState::FailedCompile(
                            String::from_str("Failed to start compile process"),
                        );
                        Err(LoaderError::CompileFailed)
                    },
                    BuildInput::Output(output) => {
                        let (success, diagnostics) = parse_build_output(output.as_str());
                        if success {
                            self.state = ProfileLoaderState::Compiled(diagnostics);
                            Ok(())
                        } else {
                            self.state = ProfileLoaderState::FailedCompile(diagnostics);
                            Err(LoaderError::CompileFailed)
                        }
                    },
                }
            },
            _ => Ok(()),
        }
    }

    /// Whether the load step should touch the dynamic loader: only a
    /// successfully compiled profile loads.
    pub fn load_needed(&self) -> (b: bool)
        ensures
            b == (self@.state is Compiled),
    {
        match self.state {
            ProfileLoaderState::Compiled(_) => true,
            _ => false,
        }
    }

    /// The conventional debug build output path of the compiled module under
    /// the profile directory, with the Unix library naming.
    pub fn library_path(&self) -> (p: String)
        ensures
            p@ == self@.dir + "/"@ + self@.name + "/target/debug/libmain.so"@,
    {
        let mut p = self.dir.clone();
        p.append("/");
        p.append(self.name.as_str());
        p.append("/target/debug/libmain.so");
        p
    }

    /// Record the outcome of the module-load step. A compiled loader moves to
    /// `Loaded` when the module and its factory symbol were found; a load
    /// failure or a missing symbol is terminal for the session and leaves the
    /// loader at `Compiled`. In any other state the call is a no-op.
    pub fn load_library(&mut self, outcome: LoadOutcome) -> (r: Result<(), LoaderError>)
        ensures
            final(self).wf() == old(self).wf(),
            final(self)@.dir == old(self)@.dir,
            final(self)@.name == old(self)@.name,
            final(self)@.instances == old(self)@.instances,
            !(old(self)@.state is Compiled) ==> *final(self) == *old(self) && r is Ok,
            old(self)@.state is Compiled ==> match outcome {
                LoadOutcome::Failed => *final(self) == *old(self) && r == Err::<(), LoaderError>(
                    LoaderError::LoadFailed,
                ),
                LoadOutcome::MissingSymbol => *final(self) == *old(self) && r == Err::<
                    (),
                    LoaderError,
                >(LoaderError::MissingSymbol),
                LoadOutcome::Loaded => final(self)@.state is Loaded && r is Ok,
            },
    {
        match self.state {
            ProfileLoaderState::Compiled(_) => {
                match outcome {
                    LoadOutcome::Failed => Err(LoaderError::LoadFailed),
                    LoadOutcome::MissingSymbol => Err(LoaderError::MissingSymbol),
                    LoadOutcome::Loaded => {
                        self.state = ProfileLoaderState::Loaded;
                        Ok(())
                    },
                }
            },
            _ => Ok(()),
        }
    }
}

/// The instance view after its private registry is reconciled against the
/// canonical map `c`.
pub open spec fn instance_reconciled(pv: ProfileView, c: Map<u32, crate::light_types::EntityView>) -> ProfileView {
    ProfileView {
        name: pv.name,
        on: pv.on,
        enabled: pv.enabled,
        data: pv.data,
        lights: crate::light_manager::reconciled(pv.lights, c),
    }
}

/// Whether some value of the instance map is the given instance view.
pub open spec fn instance_of(m: Map<Seq<char>, ProfileView>, pv: ProfileView) -> bool {
    exists|k: Seq<char>| #[trigger] m.contains_key(k) && m[k] == pv
}

/// Whether some element of `r` has the given instance view.
pub open spec fn holds_instance(r: Seq<Profile>, pv: ProfileView) -> bool {
    exists|i: int| 0 <= i < r.len() && (#[trigger] r[i])@ == pv
}

/// Whether some element of `ns` reads as the name `k`.
spec fn name_listed(ns: Seq<String>, k: Seq<char>) -> bool {
    exists|i: int| 0 <= i < ns.len() && (#[trigger] ns[i])@ == k
}

/// Whether some of the first `n` instances carries the name `k` and is
/// switched on.
spec fn on_listed(s: Seq<(String, Profile)>, n: int, k: Seq<char>) -> bool {
    exists|j: int| 0 <= j < n && (#[trigger] s[j]).0@ == k && s[j].1@.on
}

impl ProfileLoader {
    /// Whether an instance with the given name is registered.
    pub fn has_instance(&self, name: &str) -> (b: bool)
        ensures
            b == self@.instances.contains_key(name@),
    {
        let key: String = name.to_owned();
        let n = self.instances.len();
        for i in 0..n
            invariant
                n == self.instances@.len(),
                key@ == name@,
                forall|j: int| 0 <= j < i ==> (#[trigger] self.instances@[j]).0@ != name@,
        {
            if self.instances[i].0 == key {
                return true;
            }
        }
        false
    }

    /// Create a fresh instance of the loaded module under `name`, its
    /// private registry seeded from the canonical registry's template. The
    /// call fails — leaving the loader, and in particular any instance
    /// already registered under that name, untouched — when the name is
    /// taken or the module is not loaded.
    pub fn generate_instance(&mut self, name: String, light_manager: &LightManager) -> (r: Result<
        (),
        (),
    >)
        requires
            old(self).wf(),
            light_manager.wf(),
        ensures
            final(self).wf(),
            old(self)@.instances.contains_key(name@) ==> *final(self) == *old(self) && r is Err,
            !old(self)@.instances.contains_key(name@) && !(old(self)@.state is Loaded)
                ==> *final(self) == *old(self) && r is Err,
            !old(self)@.instances.contains_key(name@) && old(self)@.state is Loaded ==> r is Ok
                && final(self)@ == (LoaderView {
                instances: old(self)@.instances.insert(
                    name@,
                    ProfileView {
                        name: name@,
                        on: false,
                        enabled: false,
                        data: Map::<Seq<char>, crate::profile::DataView>::empty(),
                        lights: light_manager@.map_values(
                            |e: crate::light_types::EntityView| e.cleared(),
                        ),
                    },
                ),
                ..old(self)@
            }),
    {
        if self.has_instance(name.as_str()) {
            return Err(());
        }
        match self.state {
            ProfileLoaderState::Loaded => {
                let p = Profile::new(name.clone(), false, false, light_manager.new_template());
                proof {
                    lemma_inst_map_push(self.instances@, name, p);
                }
                self.instances.push((name, p));
                Ok(())
            },
            _ => Err(()),
        }
    }

    /// Remove the instance registered under `name` and hand it out — so its
    /// destruction hook can still be run on it — or `None` when the name is
    /// unknown.
    pub fn remove_instance(&mut self, name: &str) -> (r: Option<Profile>)
        requires
            old(self).wf(),
        ensures
            final(self).wf(),
            match r {
                Some(p) => old(self)@.instances.contains_key(name@) && p@ == old(
                    self,
                )@.instances[name@] && p.wf() && final(self)@ == (LoaderView {
                    instances: old(self)@.instances.remove(name@),
                    ..old(self)@
                }),
                None => !old(self)@.instances.contains_key(name@) && *final(self) == *old(self),
            },
    {
        let key: String = name.to_owned();
        let n = self.instances.len();
        for i in 0..n
            invariant
                self.wf(),
                *self == *old(self),
                n == self.instances@.len(),
                key@ == name@,
                forall|j: int| 0 <= j < i ==> (#[trigger] self.instances@[j]).0@ != name@,
        {
            if self.instances[i].0 == key {
                proof {
                    lemma_inst_map_index(self.instances@, i as int);
                    lemma_inst_map_remove(self.instances@, i as int);
                }
                let pair = self.instances.remove(i);
                return Some(pair.1);
            }
        }
        None
    }

    /// Register an instance under a currently free name: the way a caller
    /// hands an instance back after running a module hook on it.
    pub fn put_instance(&mut self, name: String, p: Profile)
        requires
            old(self).wf(),
            !old(self)@.instances.contains_key(name@),
            p.wf(),
        ensures
            final(self).wf(),
            final(self)@ == (LoaderView {
                instances: old(self)@.instances.insert(name@, p@),
                ..old(self)@
            }),
    {
        proof {
            lemma_inst_map_push(self.instances@, name, p);
        }
        self.instances.push((name, p));
    }

    /// The names of every registered instance.
    pub fn get_instance_names(&self) -> (r: Vec<String>)
        requires
            self.wf(),
        ensures
            forall|k: Seq<char>|
                (exists|i: int| 0 <= i < r@.len() && (#[trigger] r@[i])@ == k) <==> self@.instances
                    .contains_key(k),
            forall|a: int, b: int| 0 <= a < b < r@.len() ==> (#[trigger] r@[a])@ != (
            #[trigger] r@[b])@,
    {
        let n = self.instances.len();
        let mut out: Vec<String> = Vec::new();
        for i in 0..n
            invariant
                self.wf(),
                n == self.instances@.len(),
                out@.len() == i,
                forall|j: int| 0 <= j < i ==> (#[trigger] out@[j])@ == self.instances@[j].0@,
        {
            out.push(self.instances[i].0.clone());
        }
        proof {
            assert forall|k: Seq<char>|
                (exists|i: int| 0 <= i < out@.len() && (#[trigger] out@[i])@ == k) implies self@
                .instances.contains_key(k) by {
                let i = choose|i: int| 0 <= i < out@.len() && (#[trigger] out@[i])@ == k;
                assert(self.instances@[i].0@ == k);
                assert(inst_has_key(self.instances@, k));
            }
            assert forall|k: Seq<char>| self@.instances.contains_key(k) implies (exists|i: int|
                0 <= i < out@.len() && (#[trigger] out@[i])@ == k) by {
                let i = inst_idx_of(self.instances@, k);
                assert(0 <= i < self.instances@.len() && self.instances@[i].0@ == k);
                assert(out@[i]@ == k);
            }
        }
        out
    }

    /// The names of the instances a tick must update: exactly the running
    /// ones. Instances that are switched off are skipped entirely.
    pub fn update_targets(&self) -> (r: Vec<String>)
        requires
            self.wf(),
        ensures
            forall|k: Seq<char>|
                (exists|i: int| 0 <= i < r@.len() && (#[trigger] r@[i])@ == k) <==> (self@.instances
                    .contains_key(k) && self@.instances[k].on),
            forall|a: int, b: int| 0 <= a < b < r@.len() ==> (#[trigger] r@[a])@ != (
            #[trigger] r@[b])@,
    {
        let n = self.instances.len();
        let mut out: Vec<String> = Vec::new();
        for i in 0..n
            invariant
                self.wf(),
                n == self.instances@.len(),
                forall|a: int, b: int| 0 <= a < b < out@.len() ==> (#[trigger] out@[a])@ != (
                #[trigger] out@[b])@,
                forall|k: Seq<char>| #[trigger] name_listed(out@, k) <==> on_listed(
                    self.instances@,
                    i as int,
                    k,
                ),
        {
            let ghost prev = out@;
            let ghost cur = self.instances@[i as int].0@;
            if self.instances[i].1.is_on() {
                proof {
                    if name_listed(prev, cur) {
                        assert(on_listed(self.instances@, i as int, cur));
                        let j = choose|j: int|
                            0 <= j < i && (#[trigger] self.instances@[j]).0@ == cur
                                && self.instances@[j].1@.on;
                        assert(false);
                    }
                    assert forall|a: int| 0 <= a < prev.len() implies (#[trigger] prev[a])@
                        != cur by {
                        if prev[a]@ == cur {
                            assert(name_listed(prev, cur));
                        }
                    }
                }
                out.push(self.instances[i].0.clone());
                proof {
                    assert forall|k: Seq<char>| #[trigger] name_listed(out@, k) implies on_listed(
                        self.instances@,
                        i as int + 1,
                        k,
                    ) by {
                        let a = choose|a: int| 0 <= a < out@.len() && (#[trigger] out@[a])@ == k;
                        if a < prev.len() {
                            assert(prev[a]@ == k);
                            assert(name_listed(prev, k));
                            assert(on_listed(self.instances@, i as int, k));
                            let j = choose|j: int|
                                0 <= j < i && (#[trigger] self.instances@[j]).0@ == k
                                    && self.instances@[j].1@.on;
                        } else {
                            assert(out@[a]@ == cur);
                            assert(self.instances@[i as int].0@ == k
                                && self.instances@[i as int].1@.on);
                        }
                    }
                    assert forall|k: Seq<char>| on_listed(
                        self.instances@,
                        i as int + 1,
                        k,
                    ) implies #[trigger] name_listed(out@, k) by {
                        let j = choose|j: int|
                            0 <= j < i + 1 && (#[trigger] self.instances@[j]).0@ == k
                                && self.instances@[j].1@.on;
                        if j < i {
                            assert(on_listed(self.instances@, i as int, k));
                            assert(name_listed(prev, k));
                            let a = choose|a: int|
                                0 <= a < prev.len() && (#[trigger] prev[a])@ == k;
                            assert(out@[a]@ == k);
                        } else {
                            assert(out@[out@.len() - 1]@ == k);
                        }
                    }
                }
            } else {
                proof {
                    assert forall|k: Seq<char>| on_listed(
                        self.instances@,
                        i as int + 1,
                        k,
                    ) implies #[trigger] name_listed(out@, k) by {
                        let j = choose|j: int|
                            0 <= j < i + 1 && (#[trigger] self.instances@[j]).0@ == k
                                && self.instances@[j].1@.on;
                        assert(j < i);
                        assert(on_listed(self.instances@, i as int, k));
                    }
                    assert forall|k: Seq<char>| #[trigger] name_listed(out@, k) implies on_listed(
                        self.instances@,
                        i as int + 1,
                        k,
                    ) by {
                        assert(on_listed(self.instances@, i as int, k));
                        let j = choose|j: int|
                            0 <= j < i && (#[trigger] self.instances@[j]).0@ == k
                                && self.instances@[j].1@.on;
                    }
                }
            }
        }
        proof {
            assert forall|k: Seq<char>|
                (exists|i: int| 0 <= i < out@.len() && (#[trigger] out@[i])@ == k) implies (self@
                .instances.contains_key(k) && self@.instances[k].on) by {
                assert(name_listed(out@, k));
                assert(on_listed(self.instances@, n as int, k));
                let j = choose|j: int|
                    0 <= j < n && (#[trigger] self.instances@[j]).0@ == k
                        && self.instances@[j].1@.on;
                lemma_inst_map_index(self.instances@, j);
            }
            assert forall|k: Seq<char>|
                self@.instances.contains_key(k) && self@.instances[k].on implies (exists|i: int|
                0 <= i < out@.len() && (#[trigger] out@[i])@ == k) by {
                let j = inst_idx_of(self.instances@, k);
                assert(0 <= j < self.instances@.len() && self.instances@[j].0@ == k);
                lemma_inst_map_index(self.instances@, j);
                assert(on_listed(self.instances@, n as int, k));
                assert(name_listed(out@, k));
                let a = choose|a: int| 0 <= a < out@.len() && (#[trigger] out@[a])@ == k;
            }
        }
        out
    }

    /// The instance registered under `name`, if any.
    pub fn get_instance(&self, name: &str) -> (r: Option<&Profile>)
        requires
            self.wf(),
        ensures
            match r {
                Some(p) => self@.instances.contains_key(name@) && p@ == self@.instances[name@]
                    && p.wf(),
                None => !self@.instances.contains_key(name@),
            },
    {
        let key: String = name.to_owned();
        let n = self.instances.len();
        for i in 0..n
            invariant
                self.wf(),
                n == self.instances@.len(),
                key@ == name@,
                forall|j: int| 0 <= j < i ==> (#[trigger] self.instances@[j]).0@ != name@,
        {
            if self.instances[i].0 == key {
                proof {
                    lemma_inst_map_index(self.instances@, i as int);
                }
                return Some(&self.instances[i].1);
            }
        }
        None
    }

    /// Empty the instance table and hand every instance out, so the caller
    /// can run each one's destruction hook before releasing anything else.
    /// The recorded lifecycle state is deliberately not moved backward.
    pub fn unload(&mut self) -> (r: Vec<Profile>)
        requires
            old(self).wf(),
        ensures
            final(self).wf(),
            final(self)@ == (LoaderView {
                instances: Map::<Seq<char>, ProfileView>::empty(),
                ..old(self)@
            }),
            forall|i: int| 0 <= i < r@.len() ==> (#[trigger] r@[i]).wf(),
            forall|i: int| 0 <= i < r@.len() ==> instance_of(old(self)@.instances, (
            #[trigger] r@[i])@),
            forall|k: Seq<char>| old(self)@.instances.contains_key(k) ==> holds_instance(
                r@,
                old(self)@.instances[k],
            ),
    {
        let ghost s0 = self.instances@;
        let mut out: Vec<Profile> = Vec::new();
        loop
            invariant
                inst_keys_unique(s0),
                inst_entries_wf(s0),
                self.instances@ == s0.take(self.instances@.len() as int),
                self.instances@.len() + out@.len() == s0.len(),
                self.dir == old(self).dir,
                self.name == old(self).name,
                self.state == old(self).state,
                forall|i: int| 0 <= i < out@.len() ==> (#[trigger] out@[i])@ == s0[s0.len() - 1
                    - i].1@,
                forall|i: int| 0 <= i < out@.len() ==> (#[trigger] out@[i]).wf(),
            ensures
                self.instances@.len() == 0,
                out@.len() == s0.len(),
                self.dir == old(self).dir,
                self.name == old(self).name,
                self.state == old(self).state,
                forall|i: int| 0 <= i < out@.len() ==> (#[trigger] out@[i])@ == s0[s0.len() - 1
                    - i].1@,
                forall|i: int| 0 <= i < out@.len() ==> (#[trigger] out@[i]).wf(),
            decreases self.instances@.len(),
        {
            match self.instances.pop() {
                Some(pair) => {
                    proof {
                        assert(s0.take((self.instances@.len() + 1) as int).last() == s0[self.instances@.len() as int]);
                        assert(s0.take((self.instances@.len() + 1) as int).drop_last() =~= s0.take(
                            self.instances@.len() as int,
                        ));
                    }
                    out.push(pair.1);
                },
                None => {
                    break ;
                },
            }
        }
        proof {
            assert(self.instances@ =~= Seq::<(String, Profile)>::empty());
            assert(inst_map_of(self.instances@) =~= Map::<Seq<char>, ProfileView>::empty());
            assert(old(self)@.instances == inst_map_of(s0));
            assert forall|i: int| 0 <= i < out@.len() implies instance_of(
                old(self)@.instances,
                (#[trigger] out@[i])@,
            ) by {
                let j = s0.len() - 1 - i;
                lemma_inst_map_index(s0, j);
                assert(old(self)@.instances.contains_key(s0[j].0@) && old(
                    self,
                )@.instances[s0[j].0@] == out@[i]@);
            }
            assert forall|k: Seq<char>| old(self)@.instances.contains_key(k) implies
                holds_instance(out@, old(self)@.instances[k]) by {
                let j = inst_idx_of(s0, k);
                assert(0 <= j < s0.len() && s0[j].0@ == k);
                lemma_inst_map_index(s0, j);
                let i = s0.len() - 1 - j;
                assert(out@[i]@ == s0[j].1@);
            }
        }
        out
    }

    /// Reconcile every registered instance's private registry against the
    /// canonical one.
    #[verifier::rlimit(50)]
    pub fn update_light_structure(&mut self, state: &LightManager)
        requires
            old(self).wf(),
            state.wf(),
        ensures
            final(self).wf(),
            final(self)@ == (LoaderView {
                instances: old(self)@.instances.map_values(
                    |pv: ProfileView| instance_reconciled(pv, state@),
                ),
                ..old(self)@
            }),
    {
        let n = self.instances.len();
        for i in 0..n
            invariant
                state.wf(),
                n == self.instances@.len(),
                self.instances@.len() == old(self).instances@.len(),
                self.dir == old(self).dir,
                self.name == old(self).name,
                self.state == old(self).state,
                inst_keys_unique(old(self).instances@),
                inst_entries_wf(old(self).instances@),
                forall|j: int| 0 <= j < n ==> (#[trigger] self.instances@[j]).0@ == old(
                    self,
                ).instances@[j].0@,
                forall|j: int| 0 <= j < i ==> (#[trigger] self.instances@[j]).1@
                    == instance_reconciled(old(self).instances@[j].1@, state@),
                forall|j: int| 0 <= j < i ==> (#[trigger] self.instances@[j]).1.wf(),
                forall|j: int| i <= j < n ==> (#[trigger] self.instances@[j]).1 == old(
                    self,
                ).instances@[j].1,
        {
            let ghost pre = self.instances@;
            let pair = self.instances.remove(i);
            let (nm, mut p) = pair;
            let ghost p0 = p;
            p.reconcile_lights(state);
            proof {
                assert(p0 == old(self).instances@[i as int].1);
                assert(p@.name == p0@.name);
                assert(p@.on == p0@.on);
                assert(p@.enabled == p0@.enabled);
                assert(p@.data == p0@.data);
                assert(p@.lights == crate::light_manager::reconciled(p0@.lights, state@));
                assert(p@ =~= instance_reconciled(p0@, state@));
            }
            self.instances.insert(i, (nm, p));
            proof {
                assert(self.instances@ =~= pre.update(i as int, (nm, p)));
            }
        }
        proof {
            assert forall|a: int, b: int| 0 <= a < b < self.instances@.len() implies (
            #[trigger] self.instances@[a]).0@ != (#[trigger] self.instances@[b]).0@ by {
                assert(old(self).instances@[a].0@ != old(self).instances@[b].0@);
            }
            let ghost g = |pv: ProfileView| instance_reconciled(pv, state@);
            assert forall|k: Seq<char>| #[trigger] inst_map_of(self.instances@).contains_key(k)
                <==> inst_map_of(old(self).instances@).map_values(g).contains_key(k) by {
                if inst_has_key(self.instances@, k) {
                    let j = inst_idx_of(self.instances@, k);
                    assert(0 <= j < self.instances@.len() && self.instances@[j].0@ == k);
                    assert(old(self).instances@[j].0@ == k);
                    assert(inst_has_key(old(self).instances@, k));
                }
                if inst_has_key(old(self).instances@, k) {
                    let j = inst_idx_of(old(self).instances@, k);
                    assert(0 <= j < old(self).instances@.len() && old(self).instances@[j].0@ == k);
                    assert(self.instances@[j].0@ == k);
                    assert(inst_has_key(self.instances@, k));
                }
            }
            assert forall|k: Seq<char>| inst_map_of(self.instances@).contains_key(k) implies
                #[trigger] inst_map_of(self.instances@)[k] == inst_map_of(
                old(self).instances@,
            ).map_values(g)[k] by {
                let j = inst_idx_of(self.instances@, k);
                assert(0 <= j < self.instances@.len() && self.instances@[j].0@ == k);
                assert(inst_keys_unique(self.instances@));
                lemma_inst_map_index(self.instances@, j);
                assert(old(self).instances@[j].0@ == k);
                lemma_inst_map_index(old(self).instances@, j);
                assert(inst_map_of(old(self).instances@).map_values(g)[k] == g(
                    inst_map_of(old(self).instances@)[k],
                ));
                assert(g(inst_map_of(old(self).instances@)[k]) == instance_reconciled(
                    inst_map_of(old(self).instances@)[k],
                    state@,
                ));
            }
            assert(inst_map_of(self.instances@) =~= inst_map_of(old(self).instances@).map_values(
                g,
            ));
        }
    }
}

impl Clone for ProfileLoaderState {
    /// A copy with the same abstract value.
    fn clone(&self) -> (r: Self)
        ensures
            r@ == self@,
    {
        match self {
            ProfileLoaderState::Unloaded => ProfileLoaderState::Unloaded,
            ProfileLoaderState::Exists => ProfileLoaderState::Exists,
            ProfileLoaderState::Compiled(d) => ProfileLoaderState::Compiled(d.clone()),
            ProfileLoaderState::FailedCompile(d) => ProfileLoaderState::FailedCompile(d.clone()),
            ProfileLoaderState::Loaded => ProfileLoaderState::Loaded,
        }
    }
}

impl ProfileLoader {
    /// The recorded lifecycle state.
    pub fn get_state(&self) -> (r: ProfileLoaderState)
        ensures
            r@ == self@.state,
    {
        self.state.clone()
    }

    /// Whether the module is loaded and instances can be created.
    pub fn is_loaded(&self) -> (b: bool)
        ensures
            b == (self@.state is Loaded),
    {
        match self.state {
            ProfileLoaderState::Loaded => true,
            _ => false,
        }
    }
}

} // verus!
