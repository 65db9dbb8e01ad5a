//! The device registry: canonical devices keyed by numeric id.
//!
//! The registry owns lighting entities, allocates fresh ids by scanning
//! upward from a hint, classifies devices by kind, and reconciles a private
//! copy's topology against a canonical registry. Entries are kept as an
//! association list with unique ids; the registry's abstract value is the map
//! from id to entity view.

use vstd::prelude::*;

use crate::light_types::{EntityView, LightingTypes};

verus! {

// ---------------------------------------------------------------------------
// The association list and its map abstraction.
// ---------------------------------------------------------------------------

/// Whether some entry of `s` carries the id `id`.
pub open spec fn seq_has_id(s: Seq<(u32, LightingTypes)>, id: u32) -> bool {
    exists|i: int| 0 <= i < s.len() && (#[trigger] s[i]).0 == id
}

/// An index of the entry carrying `id`, when one exists.
pub open spec fn seq_idx_of(s: Seq<(u32, LightingTypes)>, id: u32) -> int {
    choose|i: int| 0 <= i < s.len() && (#[trigger] s[i]).0 == id
}

/// No two entries carry the same id.
pub open spec fn ids_unique(s: Seq<(u32, LightingTypes)>) -> bool {
    forall|i: int, j: int| 0 <= i < j < s.len() ==> (#[trigger] s[i]).0 != (#[trigger] s[j]).0
}

/// Every stored entity satisfies its representation invariant.
pub open spec fn entries_wf(s: Seq<(u32, LightingTypes)>) -> bool {
    forall|i: int| 0 <= i < s.len() ==> (#[trigger] s[i]).1@.wf()
}

/// The map from id to entity view that an association list denotes.
pub open spec fn map_of(s: Seq<(u32, LightingTypes)>) -> Map<u32, EntityView> {
    Map::new(|id: u32| seq_has_id(s, id), |id: u32| s[seq_idx_of(s, id)].1@)
}

proof fn lemma_map_of_index(s: Seq<(u32, LightingTypes)>, i: int)
    requires
        ids_unique(s),
        0 <= i < s.len(),
    ensures
        map_of(s).contains_key(s[i].0),
        map_of(s)[s[i].0] == s[i].1@,
{
    let id = s[i].0;
    assert(seq_has_id(s, id));
    let j = seq_idx_of(s, id);
    assert(0 <= j < s.len() && s[j].0 == id);
    assert(j == i);
}

proof fn lemma_map_of_push(s: Seq<(u32, LightingTypes)>, id: u32, e: LightingTypes)
    requires
        ids_unique(s),
        !seq_has_id(s, id),
    ensures
        ids_unique(s.push((id, e))),
        map_of(s.push((id, e))) == map_of(s).insert(id, e@),
{
    let t = s.push((id, e));
    assert forall|i: int, j: int| 0 <= i < j < t.len() implies (#[trigger] t[i]).0 != (
    #[trigger] t[j]).0 by {
        if j < s.len() {
        } else {
            assert(t[j].0 == id);
            assert(t[i] == s[i]);
        }
    }
    assert forall|k: u32| #[trigger] map_of(t).contains_key(k) <==> map_of(s).insert(
        id,
        e@,
    ).contains_key(k) by {
        if k == id {
            assert(t[s.len() as int].0 == id);
            assert(seq_has_id(t, id));
        } else {
            if seq_has_id(t, k) {
                let i = seq_idx_of(t, k);
                assert(0 <= i < t.len() && t[i].0 == k);
                assert(i < s.len());
                assert(s[i].0 == k);
            }
            if seq_has_id(s, k) {
                let i = seq_idx_of(s, k);
                assert(t[i].0 == k);
            }
        }
    }
    assert forall|k: u32| map_of(t).contains_key(k) implies #[trigger] map_of(t)[k] == map_of(
        s,
    ).insert(id, e@)[k] by {
        let i = seq_idx_of(t, k);
        assert(0 <= i < t.len() && t[i].0 == k);
        if k == id {
            assert forall|j: int| 0 <= j < s.len() implies (#[trigger] s[j]).0 != id by {}
            assert(i == s.len());
            assert(t[i].1 == e);
        } else {
            assert(i < s.len());
            assert(s[i].0 == k);
            lemma_map_of_index(s, i);
            assert(map_of(t)[k] == t[i].1@);
            assert(t[i] == s[i]);
        }
    }
    assert(map_of(t) =~= map_of(s).insert(id, e@));
}

proof fn lemma_map_of_remove(s: Seq<(u32, LightingTypes)>, i: int)
    requires
        ids_unique(s),
        0 <= i < s.len(),
    ensures
        ids_unique(s.remove(i)),
        map_of(s.remove(i)) == map_of(s).remove(s[i].0),
{
    let id = s[i].0;
    let t = s.remove(i);
    assert forall|a: int, b: int| 0 <= a < b < t.len() implies (#[trigger] t[a]).0 != (
    #[trigger] t[b]).0 by {
        let sa = if a < i { a } else { a + 1 };
        let sb = if b < i { b } else { b + 1 };
        assert(t[a] == s[sa]);
        assert(t[b] == s[sb]);
    }
    assert forall|k: u32| #[trigger] map_of(t).contains_key(k) <==> map_of(s).remove(
        id,
    ).contains_key(k) by {
        if seq_has_id(t, k) {
            let a = seq_idx_of(t, k);
            let sa = if a < i { a } else { a + 1 };
            assert(t[a] == s[sa]);
            assert(s[sa].0 == k);
            assert(sa != i ==> k != id || !ids_unique(s));
            if k == id {
                assert(sa != i);
                assert(false);
            }
        }
        if seq_has_id(s, k) && k != id {
            let a = seq_idx_of(s, k);
            assert(0 <= a < s.len() && s[a].0 == k);
            assert(a != i);
            let ta = if a < i { a } else { a - 1 };
            assert(t[ta] == s[a]);
        }
    }
    assert forall|k: u32| map_of(t).contains_key(k) implies #[trigger] map_of(t)[k] == map_of(
        s,
    ).remove(id)[k] by {
        let a = seq_idx_of(t, k);
        assert(0 <= a < t.len() && t[a].0 == k);
        let sa = if a < i { a } else { a + 1 };
        assert(t[a] == s[sa]);
        lemma_map_of_index(s, sa);
    }
    assert(map_of(t) =~= map_of(s).remove(id));
}

/// Pointwise transformation of the stored entities induces `map_values` on
/// the abstraction.
proof fn lemma_map_of_pointwise(
    s: Seq<(u32, LightingTypes)>,
    t: Seq<(u32, LightingTypes)>,
    f: spec_fn(EntityView) -> EntityView,
)
    requires
        ids_unique(s),
        t.len() == s.len(),
        forall|i: int| 0 <= i < s.len() ==> (#[trigger] t[i]).0 == s[i].0,
        forall|i: int| 0 <= i < s.len() ==> (#[trigger] t[i]).1@ == f(s[i].1@),
    ensures
        ids_unique(t),
        map_of(t) == map_of(s).map_values(f),
{
    assert forall|a: int, b: int| 0 <= a < b < t.len() implies (#[trigger] t[a]).0 != (
    #[trigger] t[b]).0 by {
        assert(s[a].0 != s[b].0);
    }
    assert forall|k: u32| #[trigger] map_of(t).contains_key(k) <==> map_of(s).map_values(
        f,
    ).contains_key(k) by {
        if seq_has_id(t, k) {
            let i = seq_idx_of(t, k);
            assert(0 <= i < t.len() && t[i].0 == k);
            assert(s[i].0 == k);
        }
        if seq_has_id(s, k) {
            let i = seq_idx_of(s, k);
            assert(0 <= i < s.len() && s[i].0 == k);
            assert(t[i].0 == k);
        }
    }
    assert forall|k: u32| map_of(t).contains_key(k) implies #[trigger] map_of(t)[k] == map_of(
        s,
    ).map_values(f)[k] by {
        let i = seq_idx_of(t, k);
        assert(0 <= i < t.len() && t[i].0 == k);
        assert(ids_unique(t));
        lemma_map_of_index(t, i);
        assert(s[i].0 == k);
        lemma_map_of_index(s, i);
        assert(map_of(t)[k] == t[i].1@);
        assert(map_of(s)[k] == s[i].1@);
    }
    assert(map_of(t) =~= map_of(s).map_values(f));
}

// ---------------------------------------------------------------------------
// The registry.
// ---------------------------------------------------------------------------

/// The canonical collection of lighting devices, keyed by numeric id.
#[derive(Debug)]
pub struct LightManager {
    next_id: u32,
    lights: Vec<(u32, LightingTypes)>,
}

impl View for LightManager {
    type V = Map<u32, EntityView>;

    /// The registry's abstract value: the map from id to entity view.
    closed spec fn view(&self) -> Map<u32, EntityView> {
        map_of(self.lights@)
    }
}

impl LightManager {
    /// The id allocation hint: the scan for a fresh id starts here.
    pub closed spec fn spec_next_id(&self) -> u32 {
        self.next_id
    }

    /// Representation invariant: ids are unique and every stored entity is
    /// well formed.
    pub closed spec fn wf(&self) -> bool {
        ids_unique(self.lights@) && entries_wf(self.lights@)
    }

    /// An empty registry whose id scan starts at 0.
    pub fn new() -> (m: LightManager)
        ensures
            m.wf(),
            m@ == Map::<u32, EntityView>::empty(),
            m.spec_next_id() == 0,
    {
        let m = LightManager { next_id: 0, lights: Vec::new() };
        proof {
            assert(m@ =~= Map::<u32, EntityView>::empty());
        }
        m
    }

    /// Whether an entry with the given id is present.
    pub fn contains_id(&self, id: u32) -> (b: bool)
        ensures
            b == self@.contains_key(id),
    {
        let n = self.lights.len();
        for i in 0..n
            invariant
                n == self.lights@.len(),
                forall|j: int| 0 <= j < i ==> (#[trigger] self.lights@[j]).0 != id,
        {
            if self.lights[i].0 == id {
                return true;
            }
        }
        false
    }

    /// The entity stored at `id`, if any.
    pub fn get_light(&self, id: u32) -> (r: Option<&LightingTypes>)
        requires
            self.wf(),
        ensures
            match r {
                Some(e) => self@.contains_key(id) && e@ == self@[id] && e@.wf(),
                None => !self@.contains_key(id),
            },
    {
        let n = self.lights.len();
        for i in 0..n
            invariant
                self.wf(),
                n == self.lights@.len(),
                forall|j: int| 0 <= j < i ==> (#[trigger] self.lights@[j]).0 != id,
        {
            if self.lights[i].0 == id {
                proof {
                    lemma_map_of_index(self.lights@, i as int);
                }
                return Some(&self.lights[i].1);
            }
        }
        None
    }

    /// Remove and hand out the entity stored at `id`; the caller can put a
    /// replacement back under the same id with `put_light`.
    pub fn take_light(&mut self, id: u32) -> (r: Option<LightingTypes>)
        requires
            old(self).wf(),
        ensures
            final(self).wf(),
            final(self).spec_next_id() == old(self).spec_next_id(),
            match r {
                Some(e) => old(self)@.contains_key(id) && e@ == old(self)@[id] && e@.wf()
                    && final(self)@ == old(self)@.remove(id),
                None => !old(self)@.contains_key(id) && *final(self) == *old(self),
            },
    {
        let n = self.lights.len();
        for i in 0..n
            invariant
                self.wf(),
                *self == *old(self),
                n == self.lights@.len(),
                forall|j: int| 0 <= j < i ==> (#[trigger] self.lights@[j]).0 != id,
        {
            if self.lights[i].0 == id {
                proof {
                    lemma_map_of_index(self.lights@, i as int);
                    lemma_map_of_remove(self.lights@, i as int);
                }
                let pair = self.lights.remove(i);
                return Some(pair.1);
            }
        }
        None
    }

    /// Store an entity under a currently free id.
    pub fn put_light(&mut self, id: u32, light: LightingTypes)
        requires
            old(self).wf(),
            !old(self)@.contains_key(id),
            light@.wf(),
        ensures
            final(self).wf(),
            final(self)@ == old(self)@.insert(id, light@),
            final(self).spec_next_id() == old(self).spec_next_id(),
    {
        proof {
            lemma_map_of_push(self.lights@, id, light);
        }
        self.lights.push((id, light));
    }

    /// Allocate the smallest currently free id at or above the hint, and
    /// advance the hint past it.
    fn get_id(&mut self) -> (id: u32)
        requires
            old(self).wf(),
            old(self)@.dom().len() + old(self).spec_next_id() < 0xffff_ffffu32,
        ensures
            final(self).wf(),
            final(self)@ == old(self)@,
            !old(self)@.contains_key(id),
            old(self).spec_next_id() <= id,
            forall|k: u32| old(self).spec_next_id() <= k < id ==> old(self)@.contains_key(k),
            final(self).spec_next_id() == id + 1,
    {
        let start = self.next_id;
        proof {
            vstd::set_lib::lemma_len_subset(old(self)@.dom(), Set::<u32>::full());
            <u32 as vstd::set_lib::FiniteFull>::full_properties();
        }
        loop
            invariant
                self.wf(),
                self@ == old(self)@,
                self.lights@ == old(self).lights@,
                start <= self.next_id,
                forall|k: u32| start <= k < self.next_id ==> old(self)@.contains_key(k),
                self.next_id - start <= old(self)@.dom().len(),
                old(self)@.dom().len() + start < 0xffff_ffffu32,
                old(self)@.dom().finite(),
            ensures
                self.wf(),
                self@ == old(self)@,
                self.lights@ == old(self).lights@,
                start <= self.next_id,
                forall|k: u32| start <= k < self.next_id ==> old(self)@.contains_key(k),
                self.next_id - start <= old(self)@.dom().len(),
                old(self)@.dom().len() + start < 0xffff_ffffu32,
                !self@.contains_key(self.next_id),
            decreases 0xffff_ffffu32 - self.next_id,
        {
            if !self.contains_id(self.next_id) {
                break;
            }
            proof {
                let lo = start;
                let hi = (self.next_id + 1) as u32;
                let range = Set::<u32>::range(lo, hi);
                vstd::set_lib::range_set_properties::<u32>(lo, hi);
                assert(range.subset_of(old(self)@.dom())) by {
                    assert forall|k: u32| range.contains(k) implies old(self)@.dom().contains(
                        k,
                    ) by {
                        assert(lo <= k < hi);
                        if k < self.next_id {
                        } else {
                            assert(k == self.next_id);
                        }
                    }
                }
                vstd::set_lib::lemma_len_subset(range, old(self)@.dom());
                assert(hi - lo <= old(self)@.dom().len());
            }
            self.next_id = self.next_id + 1;
        }
        let out = self.next_id;
        self.next_id = out + 1;
        out
    }

    /// Insert an entity under a freshly allocated id: the smallest free id at
    /// or above the allocation hint. Ids of present entries are never reused;
    /// a freed id below the hint can be reallocated only after the hint no
    /// longer precedes it.
    pub fn add_light(&mut self, light: LightingTypes) -> (id: u32)
        requires
            old(self).wf(),
            light@.wf(),
            old(self)@.dom().len() + old(self).spec_next_id() < 0xffff_ffffu32,
        ensures
            final(self).wf(),
            !old(self)@.contains_key(id),
            old(self).spec_next_id() <= id,
            forall|k: u32| old(self).spec_next_id() <= k < id ==> old(self)@.contains_key(k),
            final(self)@ == old(self)@.insert(id, light@),
            final(self).spec_next_id() == id + 1,
    {
        let next_id = self.get_id();
        self.put_light(next_id, light);
        next_id
    }

    /// Remove the entry at `id`, if any.
    pub fn remove_light(&mut self, id: u32)
        requires
            old(self).wf(),
        ensures
            final(self).wf(),
            final(self)@ == old(self)@.remove(id),
            final(self).spec_next_id() == old(self).spec_next_id(),
    {
        let taken = self.take_light(id);
        proof {
            if taken is None {
                assert(self@ =~= old(self)@.remove(id));
            }
        }
    }
}

impl Clone for LightManager {
    /// A deep copy: same entries, same allocation hint.
    fn clone(&self) -> (r: Self)
        ensures
            r.spec_next_id() == self.spec_next_id(),
            self.wf() ==> r@ == self@ && r.wf(),
    {
        let n = self.lights.len();
        let mut lights: Vec<(u32, LightingTypes)> = Vec::with_capacity(n);
        for i in 0..n
            invariant
                n == self.lights@.len(),
                lights@.len() == i,
                forall|j: int| 0 <= j < i ==> (#[trigger] lights@[j]).0 == self.lights@[j].0,
                forall|j: int| 0 <= j < i ==> (#[trigger] lights@[j]).1@ == self.lights@[j].1@,
        {
            let e = self.lights[i].1.clone();
            lights.push((self.lights[i].0, e));
        }
        let r = LightManager { next_id: self.next_id, lights };
        proof {
            if self.wf() {
                lemma_map_of_pointwise(self.lights@, r.lights@, |e: EntityView| e);
                assert(map_of(self.lights@).map_values(|e: EntityView| e) =~= map_of(
                    self.lights@,
                ));
                assert forall|i: int| 0 <= i < r.lights@.len() implies (
                #[trigger] r.lights@[i]).1@.wf() by {
                    assert(self.lights@[i].1@.wf());
                }
            }
        }
        r
    }
}

impl LightManager {
    /// Clear every stored entity in place; no entry is removed and the
    /// allocation hint is kept.
    pub fn clear(&mut self)
        requires
            old(self).wf(),
        ensures
            final(self).wf(),
            final(self)@ == old(self)@.map_values(|e: EntityView| e.cleared()),
            final(self).spec_next_id() == old(self).spec_next_id(),
    {
        let n = self.lights.len();
        for i in 0..n
            invariant
                n == self.lights@.len(),
                self.lights@.len() == old(self).lights@.len(),
                self.next_id == old(self).next_id,
                forall|j: int| 0 <= j < n ==> (#[trigger] self.lights@[j]).0 == old(
                    self,
                ).lights@[j].0,
                forall|j: int| 0 <= j < i ==> (#[trigger] self.lights@[j]).1@ == old(
                    self,
                ).lights@[j].1@.cleared(),
                forall|j: int| i <= j < n ==> (#[trigger] self.lights@[j]).1 == old(
                    self,
                ).lights@[j].1,
                forall|j: int| i <= j < n ==> (#[trigger] self.lights@[j]).1@.wf(),
        {
            self.lights[i].1.clear();
        }
        proof {
            lemma_map_of_pointwise(
                old(self).lights@,
                self.lights@,
                |e: EntityView| e.cleared(),
            );
            assert forall|i: int| 0 <= i < self.lights@.len() implies (
            #[trigger] self.lights@[i]).1@.wf() by {
                assert(old(self).lights@[i].1@.wf());
                assert(self.lights@[i].1@ == old(self).lights@[i].1@.cleared());
            }
        }
    }

    /// A structural clone of the registry with every entity cleared: the
    /// template used to seed a new profile instance's private registry.
    pub fn new_template(&self) -> (t: LightManager)
        requires
            self.wf(),
        ensures
            t.wf(),
            t@ == self@.map_values(|e: EntityView| e.cleared()),
            t.spec_next_id() == self.spec_next_id(),
    {
        let mut out = self.clone();
        out.clear();
        out
    }

    /// The ids of every stored entry, without duplicates.
    pub fn get_all_ids(&self) -> (r: Vec<u32>)
        requires
            self.wf(),
        ensures
            r@.no_duplicates(),
            forall|k: u32| #[trigger] r@.contains(k) <==> self@.contains_key(k),
    {
        let n = self.lights.len();
        let mut out: Vec<u32> = Vec::new();
        for i in 0..n
            invariant
                self.wf(),
                n == self.lights@.len(),
                out@.len() == i,
                forall|j: int| 0 <= j < i ==> (#[trigger] out@[j]) == self.lights@[j].0,
        {
            out.push(self.lights[i].0);
        }
        proof {
            assert forall|a: int, b: int| 0 <= a < b < out@.len() implies out@[a] != out@[b] by {
                assert(self.lights@[a].0 != self.lights@[b].0);
            }
            assert forall|k: u32| out@.contains(k) implies self@.contains_key(k) by {
                let j = choose|j: int| 0 <= j < out@.len() && out@[j] == k;
                assert(self.lights@[j].0 == k);
                assert(seq_has_id(self.lights@, k));
            }
            assert forall|k: u32| self@.contains_key(k) implies out@.contains(k) by {
                let j = seq_idx_of(self.lights@, k);
                assert(0 <= j < self.lights@.len() && self.lights@[j].0 == k);
                assert(out@[j] == k);
            }
        }
        out
    }
}

// ---------------------------------------------------------------------------
// Classification of entries by device kind.
// ---------------------------------------------------------------------------

/// A device-kind filter for id classification queries.
enum KindFilter {
    Strip,
    Bulb,
    Group,
    BulbLike,
}

/// Whether a device matches a kind filter.
spec fn kind_matches(f: KindFilter, e: EntityView) -> bool {
    match f {
        KindFilter::Strip => e is Strip,
        KindFilter::Bulb => e is Bulb,
        KindFilter::Group => e is Group,
        KindFilter::BulbLike => e.is_bulb_like(),
    }
}

/// The ids of the matching entries among the first `n`, in entry order.
spec fn ids_of_matching(s: Seq<(u32, LightingTypes)>, f: KindFilter, n: int) -> Seq<u32>
    decreases n,
{
    if n <= 0 {
        Seq::empty()
    } else if kind_matches(f, s[n - 1].1@) {
        ids_of_matching(s, f, n - 1).push(s[n - 1].0)
    } else {
        ids_of_matching(s, f, n - 1)
    }
}

proof fn lemma_ids_of_matching(s: Seq<(u32, LightingTypes)>, f: KindFilter, n: int)
    requires
        ids_unique(s),
        0 <= n <= s.len(),
    ensures
        ids_of_matching(s, f, n).no_duplicates(),
        forall|k: u32| ids_of_matching(s, f, n).contains(k) <==> exists|j: int|
            0 <= j < n && (#[trigger] s[j]).0 == k && kind_matches(f, s[j].1@),
    decreases n,
{
    if n > 0 {
        lemma_ids_of_matching(s, f, n - 1);
        let p = ids_of_matching(s, f, n - 1);
        if kind_matches(f, s[n - 1].1@) {
            let q = p.push(s[n - 1].0);
            assert forall|k: u32| q.contains(k) implies exists|j: int|
                0 <= j < n && (#[trigger] s[j]).0 == k && kind_matches(f, s[j].1@) by {
                let a = choose|a: int| 0 <= a < q.len() && q[a] == k;
                if a < p.len() {
                    assert(p.contains(k));
                } else {
                    assert(s[n - 1].0 == k);
                }
            }
            assert forall|k: u32|
                (exists|j: int| 0 <= j < n && (#[trigger] s[j]).0 == k && kind_matches(
                    f,
                    s[j].1@,
                )) implies q.contains(k) by {
                let j = choose|j: int| 0 <= j < n && (#[trigger] s[j]).0 == k && kind_matches(
                    f,
                    s[j].1@,
                );
                if j < n - 1 {
                    assert(p.contains(k));
                    let a = choose|a: int| 0 <= a < p.len() && p[a] == k;
                    assert(q[a] == k);
                } else {
                    assert(q[q.len() - 1] == k);
                }
            }
            assert(!p.contains(s[n - 1].0));
            assert(q.no_duplicates()) by {
                assert forall|a: int, b: int| 0 <= a < b < q.len() implies q[a] != q[b] by {
                    if b < p.len() {
                    } else {
                        assert(q[b] == s[n - 1].0);
                        assert(p.contains(q[a]));
                    }
                }
            }
        } else {
            assert forall|k: u32|
                (exists|j: int| 0 <= j < n && (#[trigger] s[j]).0 == k && kind_matches(
                    f,
                    s[j].1@,
                )) implies p.contains(k) by {
                let j = choose|j: int| 0 <= j < n && (#[trigger] s[j]).0 == k && kind_matches(
                    f,
                    s[j].1@,
                );
                assert(j < n - 1);
            }
        }
    }
}

impl LightManager {
    /// The ids of the entries matching the filter, without duplicates.
    fn ids_matching(&self, f: KindFilter) -> (r: Vec<u32>)
        requires
            self.wf(),
        ensures
            r@.no_duplicates(),
            forall|k: u32| #[trigger] r@.contains(k) <==> self@.contains_key(k) && kind_matches(
                f,
                self@[k],
            ),
    {
        let n = self.lights.len();
        let mut out: Vec<u32> = Vec::new();
        for i in 0..n
            invariant
                self.wf(),
                n == self.lights@.len(),
                out@ == ids_of_matching(self.lights@, f, i as int),
        {
            let matched: bool = match (&f, &self.lights[i].1) {
                (KindFilter::Strip, LightingTypes::LightStrip(_)) => true,
                (KindFilter::Bulb, LightingTypes::Bulb(_)) => true,
                (KindFilter::Group, LightingTypes::BulbGroup(_)) => true,
                (KindFilter::BulbLike, LightingTypes::Bulb(_)) => true,
                (KindFilter::BulbLike, LightingTypes::BulbGroup(_)) => true,
                _ => false,
            };
            proof {
                assert(matched == kind_matches(f, self.lights@[i as int].1@));
                assert(ids_of_matching(self.lights@, f, i as int + 1) == (if kind_matches(
                    f,
                    self.lights@[i as int].1@,
                ) {
                    ids_of_matching(self.lights@, f, i as int).push(self.lights@[i as int].0)
                } else {
                    ids_of_matching(self.lights@, f, i as int)
                }));
            }
            if matched {
                out.push(self.lights[i].0);
            }
        }
        proof {
            lemma_ids_of_matching(self.lights@, f, n as int);
            assert forall|k: u32| out@.contains(k) implies self@.contains_key(k) && kind_matches(
                f,
                self@[k],
            ) by {
                let j = choose|j: int| 0 <= j < n && (#[trigger] self.lights@[j]).0 == k
                    && kind_matches(f, self.lights@[j].1@);
                lemma_map_of_index(self.lights@, j);
            }
            assert forall|k: u32| self@.contains_key(k) && kind_matches(f, self@[k]) implies out@
                .contains(k) by {
                let j = seq_idx_of(self.lights@, k);
                assert(0 <= j < self.lights@.len() && self.lights@[j].0 == k);
                lemma_map_of_index(self.lights@, j);
                assert(kind_matches(f, self.lights@[j].1@));
            }
        }
        out
    }

    /// The ids of every light strip.
    pub fn get_light_strip_ids(&self) -> (r: Vec<u32>)
        requires
            self.wf(),
        ensures
            r@.no_duplicates(),
            forall|k: u32| #[trigger] r@.contains(k) <==> self@.contains_key(k) && self@[k]
                is Strip,
    {
        self.ids_matching(KindFilter::Strip)
    }

    /// The ids of every single bulb.
    pub fn get_bulb_ids(&self) -> (r: Vec<u32>)
        requires
            self.wf(),
        ensures
            r@.no_duplicates(),
            forall|k: u32| #[trigger] r@.contains(k) <==> self@.contains_key(k) && self@[k]
                is Bulb,
    {
        self.ids_matching(KindFilter::Bulb)
    }

    /// The ids of every bulb group.
    pub fn get_bulb_group_ids(&self) -> (r: Vec<u32>)
        requires
            self.wf(),
        ensures
            r@.no_duplicates(),
            forall|k: u32| #[trigger] r@.contains(k) <==> self@.contains_key(k) && self@[k]
                is Group,
    {
        self.ids_matching(KindFilter::Group)
    }

    /// The ids of every bulb-like entry: single bulbs and bulb groups.
    pub fn get_all_bulb_ids(&self) -> (r: Vec<u32>)
        requires
            self.wf(),
        ensures
            r@.no_duplicates(),
            forall|k: u32| #[trigger] r@.contains(k) <==> self@.contains_key(k) && self@[k]
                .is_bulb_like(),
    {
        self.ids_matching(KindFilter::BulbLike)
    }
}

// ---------------------------------------------------------------------------
// Topology reconciliation.
// ---------------------------------------------------------------------------

/// The result of reconciling a private registry map `m` against a canonical
/// map `c`: every canonical id is present (kept from `m` where both have it,
/// cloned from `c` otherwise), bulb-like private entries absent from `c` are
/// dropped, and non-bulb-like private extras are kept untouched.
pub open spec fn reconciled(m: Map<u32, EntityView>, c: Map<u32, EntityView>) -> Map<
    u32,
    EntityView,
> {
    Map::new(
        |id: u32| c.contains_key(id) || (m.contains_key(id) && !m[id].is_bulb_like()),
        |id: u32| if m.contains_key(id) { m[id] } else { c[id] },
    )
}

/// The ids of the bulb-like entries of a registry map.
pub open spec fn bulb_like_ids(m: Map<u32, EntityView>) -> Set<u32> {
    Set::new(|id: u32| m.contains_key(id) && m[id].is_bulb_like())
}

/// Law: reconciling twice in a row against the same canonical map gives the
/// same registry as reconciling once.
pub proof fn lemma_reconcile_idempotent(m: Map<u32, EntityView>, c: Map<u32, EntityView>)
    ensures
        reconciled(reconciled(m, c), c) == reconciled(m, c),
{
    let r1 = reconciled(m, c);
    let r2 = reconciled(r1, c);
    assert forall|id: u32| #[trigger] r2.contains_key(id) <==> r1.contains_key(id) by {}
    assert forall|id: u32| r2.contains_key(id) implies #[trigger] r2[id] == r1[id] by {}
    assert(r2 =~= r1);
}

/// Law: after reconciliation, the bulb-like ids of the private registry
/// together with the canonical ids are exactly the canonical ids — every
/// canonical id is present, and no bulb-like id outside the canonical set
/// survives.
pub proof fn lemma_reconcile_topology(m: Map<u32, EntityView>, c: Map<u32, EntityView>)
    ensures
        forall|id: u32| c.contains_key(id) ==> #[trigger] reconciled(m, c).contains_key(id),
        forall|id: u32| #[trigger] reconciled(m, c).contains_key(id) && reconciled(m, c)[id]
            .is_bulb_like() ==> c.contains_key(id),
        bulb_like_ids(reconciled(m, c)).union(c.dom()) == c.dom(),
{
    let r = reconciled(m, c);
    assert forall|id: u32| #[trigger] r.contains_key(id) && r[id].is_bulb_like() implies c
        .contains_key(id) by {
        if !c.contains_key(id) {
            assert(m.contains_key(id) && !m[id].is_bulb_like());
            assert(r[id] == m[id]);
        }
    }
    assert(bulb_like_ids(r).union(c.dom()) =~= c.dom());
}

/// Whether `k` occurs among the first `idx` entries of `ids`.
spec fn processed_upto(ids: Seq<u32>, idx: int, k: u32) -> bool {
    exists|j: int| 0 <= j < idx && ids[j] == k
}

impl LightManager {
    /// Bring this registry's topology in line with the canonical one: insert
    /// clones of canonical entries missing here, drop bulb-like local entries
    /// absent from the canonical registry, and leave everything else — in
    /// particular entries present on both sides — untouched.
    pub fn sync_structure(&mut self, state: &LightManager)
        requires
            old(self).wf(),
            state.wf(),
        ensures
            final(self).wf(),
            final(self)@ == reconciled(old(self)@, state@),
            final(self).spec_next_id() == old(self).spec_next_id(),
    {
        let ghost m0 = old(self)@;
        let ghost c = state@;
        let mut ids = self.get_all_bulb_ids();
        let mut other_ids = state.get_all_ids();
        let ghost bulbids = ids@;
        let ghost stateids = other_ids@;
        ids.append(&mut other_ids);
        let ghost allids = ids@;
        proof {
            assert(allids == bulbids + stateids);
            assert forall|k: u32| allids.contains(k) implies ((m0.contains_key(k)
                && m0[k].is_bulb_like()) || c.contains_key(k)) by {
                let a = choose|a: int| 0 <= a < allids.len() && allids[a] == k;
                if a < bulbids.len() {
                    assert(bulbids[a] == k);
                    assert(bulbids.contains(k));
                } else {
                    assert(stateids[a - bulbids.len()] == k);
                    assert(stateids.contains(k));
                }
            }
            assert forall|k: u32| m0.contains_key(k) && m0[k].is_bulb_like() && !c.contains_key(
                k,
            ) implies allids.contains(k) by {
                assert(bulbids.contains(k));
                let a = choose|a: int| 0 <= a < bulbids.len() && bulbids[a] == k;
                assert(allids[a] == k);
            }
            assert forall|k: u32| c.contains_key(k) && !m0.contains_key(k) implies allids.contains(
                k,
            ) by {
                assert(stateids.contains(k));
                let a = choose|a: int| 0 <= a < stateids.len() && stateids[a] == k;
                assert(allids[bulbids.len() + a] == k);
            }
        }
        let n = ids.len();
        let mut idx: usize = 0;
        while idx < n
            invariant
                idx <= n,
                self.wf(),
                state.wf(),
                c == state@,
                self.next_id == old(self).next_id,
                n == ids@.len(),
                ids@ == allids,
                forall|k: u32| allids.contains(k) ==> ((m0.contains_key(k)
                    && m0[k].is_bulb_like()) || c.contains_key(k)),
                forall|k: u32| m0.contains_key(k) && m0[k].is_bulb_like() && !c.contains_key(k)
                    ==> allids.contains(k),
                forall|k: u32| c.contains_key(k) && !m0.contains_key(k) ==> allids.contains(k),
                forall|k: u32| #[trigger] processed_upto(allids, idx as int, k) ==> ((
                self@.contains_key(k) == reconciled(m0, c).contains_key(k)) && (self@.contains_key(
                    k,
                ) ==> self@[k] == reconciled(m0, c)[k])),
                forall|k: u32| !(#[trigger] processed_upto(allids, idx as int, k)) ==> ((
                self@.contains_key(k) == m0.contains_key(k)) && (m0.contains_key(k)
                    ==> self@.contains_key(k) && self@[k] == m0[k])),
            decreases n - idx,
        {
            let id = ids[idx];
            let ghost self0 = *self;
            let ghost processed = processed_upto(allids, idx as int, id);
            proof {
                assert(allids[idx as int] == id);
                assert(allids.contains(id));
            }
            if !self.contains_id(id) {
                match state.get_light(id) {
                    Some(e) => {
                        proof {
                            if processed {
                                assert(processed_upto(allids, idx as int, id));
                                assert(self@.contains_key(id) == reconciled(m0, c).contains_key(
                                    id,
                                ));
                                assert(c.contains_key(id));
                                assert(reconciled(m0, c).contains_key(id));
                                assert(false);
                            }
                            assert(!processed_upto(allids, idx as int, id));
                            assert(!m0.contains_key(id));
                        }
                        let cl = e.clone();
                        self.put_light(id, cl);
                        proof {
                            assert(self@ == self0@.insert(id, c[id]));
                            assert(self@.contains_key(id) && self@[id] == c[id]);
                            assert(reconciled(m0, c).contains_key(id));
                            assert(reconciled(m0, c)[id] == c[id]);
                        }
                    },
                    None => {
                        proof {
                            if !processed {
                                assert(!processed_upto(allids, idx as int, id));
                                assert(!m0.contains_key(id));
                                assert(!reconciled(m0, c).contains_key(id));
                            } else {
                                assert(processed_upto(allids, idx as int, id));
                                assert(self@.contains_key(id) == reconciled(m0, c).contains_key(
                                    id,
                                ));
                            }
                        }
                    },
                }
            } else if !state.contains_id(id) {
                proof {
                    if processed {
                        assert(processed_upto(allids, idx as int, id));
                        assert(self@.contains_key(id) == reconciled(m0, c).contains_key(id));
                        assert(reconciled(m0, c).contains_key(id));
                        assert(m0.contains_key(id) && !m0[id].is_bulb_like());
                        assert((m0.contains_key(id) && m0[id].is_bulb_like()) || c.contains_key(
                            id,
                        ));
                        assert(false);
                    }
                    assert(!processed_upto(allids, idx as int, id));
                    assert(m0.contains_key(id));
                    assert((m0.contains_key(id) && m0[id].is_bulb_like()) || c.contains_key(id));
                    assert(m0[id].is_bulb_like());
                }
                self.remove_light(id);
                proof {
                    assert(self@ == self0@.remove(id));
                    assert(!self@.contains_key(id));
                    assert(!reconciled(m0, c).contains_key(id));
                }
            } else {
                proof {
                    assert(self@.contains_key(id) && c.contains_key(id));
                    assert(reconciled(m0, c).contains_key(id));
                    if processed {
                        assert(processed_upto(allids, idx as int, id));
                        assert(self@[id] == reconciled(m0, c)[id]);
                    } else {
                        assert(!processed_upto(allids, idx as int, id));
                        assert(m0.contains_key(id));
                        assert(self@[id] == m0[id]);
                        assert(reconciled(m0, c)[id] == m0[id]);
                    }
                }
            }
            proof {
                assert forall|k: u32| #[trigger] processed_upto(allids, idx + 1, k) implies ((
                self@.contains_key(k) == reconciled(m0, c).contains_key(k)) && (self@.contains_key(
                    k,
                ) ==> self@[k] == reconciled(m0, c)[k])) by {
                    if k != id {
                        let j = choose|j: int| 0 <= j < idx + 1 && allids[j] == k;
                        assert(j < idx);
                        assert(processed_upto(allids, idx as int, k));
                        assert(self@.contains_key(k) == self0@.contains_key(k));
                        assert(self0@.contains_key(k) ==> self@[k] == self0@[k]);
                    }
                }
                assert forall|k: u32| !(#[trigger] processed_upto(allids, idx + 1, k)) implies ((
                self@.contains_key(k) == m0.contains_key(k)) && (m0.contains_key(k)
                    ==> self@.contains_key(k) && self@[k] == m0[k])) by {
                    assert(allids[idx as int] == id);
                    assert(k != id);
                    assert(!processed_upto(allids, idx as int, k));
                    assert(self@.contains_key(k) == self0@.contains_key(k));
                    assert(self0@.contains_key(k) ==> self@[k] == self0@[k]);
                }
            }
            idx = idx + 1;
        }
        proof {
            assert forall|k: u32| #[trigger] self@.contains_key(k) <==> reconciled(
                m0,
                c,
            ).contains_key(k) by {
                if allids.contains(k) {
                    let j = choose|j: int| 0 <= j < allids.len() && allids[j] == k;
                    assert(processed_upto(allids, n as int, k));
                } else {
                    if c.contains_key(k) && !m0.contains_key(k) {
                        assert(allids.contains(k));
                    }
                    if m0.contains_key(k) && m0[k].is_bulb_like() && !c.contains_key(k) {
                        assert(allids.contains(k));
                    }
                    assert(!processed_upto(allids, n as int, k)) by {
                        if processed_upto(allids, n as int, k) {
                            let j = choose|j: int| 0 <= j < n && allids[j] == k;
                            assert(allids.contains(k));
                        }
                    }
                }
            }
            assert forall|k: u32| self@.contains_key(k) implies #[trigger] self@[k] == reconciled(
                m0,
                c,
            )[k] by {
                if allids.contains(k) {
                    let j = choose|j: int| 0 <= j < allids.len() && allids[j] == k;
                    assert(processed_upto(allids, n as int, k));
                } else {
                    assert(!processed_upto(allids, n as int, k)) by {
                        if processed_upto(allids, n as int, k) {
                            let j = choose|j: int| 0 <= j < n && allids[j] == k;
                            assert(allids.contains(k));
                        }
                    }
                }
            }
            assert(self@ =~= reconciled(m0, c));
        }
    }
}

/// Whether `needle` occurs as a contiguous run inside `hay`.
pub open spec fn contains_text(hay: Seq<char>, needle: Seq<char>) -> bool {
    exists|i: int|
        0 <= i && i + needle.len() <= hay.len() && (#[trigger] hay.subrange(
            i,
            i + needle.len(),
        )) == needle
}

/// Appending on the right keeps every occurrence.
proof fn lemma_contains_text_append(a: Seq<char>, b: Seq<char>, needle: Seq<char>)
    requires
        contains_text(a, needle),
    ensures
        contains_text(a + b, needle),
{
    let i = choose|i: int|
        0 <= i && i + needle.len() <= a.len() && (#[trigger] a.subrange(i, i + needle.len()))
            == needle;
    assert((a + b).subrange(i, i + needle.len()) =~= a.subrange(i, i + needle.len()));
}

impl LightManager {
    /// A terminal rendering of the registry, one section per device kind.
    /// Each kind with at least one entry contributes its header; the per-cell
    /// text between the headers is the terminal coloring crate's and is not
    /// pinned here, so only the presence of the headers is stated.
    pub fn as_string(&self) -> (r: String)
        requires
            self.wf(),
        ensures
            (exists|k: u32| self@.contains_key(k) && (#[trigger] self@[k]) is Strip)
                ==> contains_text(r@, "Light Strips:"@),
            (exists|k: u32| self@.contains_key(k) && (#[trigger] self@[k]) is Group)
                ==> contains_text(r@, "Bulb Groups:"@),
            (exists|k: u32| self@.contains_key(k) && (#[trigger] self@[k]) is Bulb)
                ==> contains_text(r@, "Bulbs:"@),
    {
        proof {
            reveal_strlit("Light Strips:");
            reveal_strlit("Light Strips:\n");
            reveal_strlit("Bulb Groups:");
            reveal_strlit("Bulb Groups:\n");
            reveal_strlit("Bulbs:");
            reveal_strlit("Bulbs:\n");
            reveal_strlit("\n");
        }
        let mut out = String::new();
        let strips = self.get_light_strip_ids();
        let ghost had_strips = strips@.len() > 0;
        if strips.len() > 0 {
            let ghost before = out@;
            out.append("Light Strips:\n");
            proof {
                assert(out@.subrange(before.len() as int, before.len() as int + 13) =~= "Light Strips:"@);
                assert(contains_text(out@, "Light Strips:"@));
            }
            for i in 0..strips.len()
                invariant
                    self.wf(),
                    contains_text(out@, "Light Strips:"@),
            {
                match self.get_light(strips[i]) {
                    Some(e) => {
                        let ghost a = out@;
                        let cell = e.as_string();
                        out.append(cell.as_str());
                        proof {
                            lemma_contains_text_append(a, cell@, "Light Strips:"@);
                        }
                        let ghost a2 = out@;
                        out.append("\n");
                        proof {
                            lemma_contains_text_append(a2, "\n"@, "Light Strips:"@);
                        }
                    },
                    None => {},
                }
            }
        }
        let groups = self.get_bulb_group_ids();
        let ghost had_groups = groups@.len() > 0;
        if groups.len() > 0 {
            let ghost before = out@;
            out.append("Bulb Groups:\n");
            proof {
                assert(out@.subrange(before.len() as int, before.len() as int + 12) =~= "Bulb Groups:"@);
                assert(contains_text(out@, "Bulb Groups:"@));
                if had_strips {
                    lemma_contains_text_append(before, "Bulb Groups:\n"@, "Light Strips:"@);
                }
            }
            for i in 0..groups.len()
                invariant
                    self.wf(),
                    contains_text(out@, "Bulb Groups:"@),
                    had_strips ==> contains_text(out@, "Light Strips:"@),
            {
                match self.get_light(groups[i]) {
                    Some(e) => {
                        let ghost a = out@;
                        let cell = e.as_string();
                        out.append(cell.as_str());
                        proof {
                            lemma_contains_text_append(a, cell@, "Bulb Groups:"@);
                            if had_strips {
                                lemma_contains_text_append(a, cell@, "Light Strips:"@);
                            }
                        }
                        let ghost a2 = out@;
                        out.append("\n");
                        proof {
                            lemma_contains_text_append(a2, "\n"@, "Bulb Groups:"@);
                            if had_strips {
                                lemma_contains_text_append(a2, "\n"@, "Light Strips:"@);
                            }
                        }
                    },
                    None => {},
                }
            }
        }
        let bulbs = self.get_bulb_ids();
        let ghost had_bulbs = bulbs@.len() > 0;
        if bulbs.len() > 0 {
            let ghost before = out@;
            out.append("Bulbs:\n");
            proof {
                assert(out@.subrange(before.len() as int, before.len() as int + 6) =~= "Bulbs:"@);
                assert(contains_text(out@, "Bulbs:"@));
                if had_strips {
                    lemma_contains_text_append(before, "Bulbs:\n"@, "Light Strips:"@);
                }
                if had_groups {
                    lemma_contains_text_append(before, "Bulbs:\n"@, "Bulb Groups:"@);
                }
            }
            for i in 0..bulbs.len()
                invariant
                    self.wf(),
                    contains_text(out@, "Bulbs:"@),
                    had_strips ==> contains_text(out@, "Light Strips:"@),
                    had_groups ==> contains_text(out@, "Bulb Groups:"@),
            {
                match self.get_light(bulbs[i]) {
                    Some(e) => {
                        let ghost a = out@;
                        let cell = e.as_string();
                        out.append(cell.as_str());
                        proof {
                            lemma_contains_text_append(a, cell@, "Bulbs:"@);
                            if had_strips {
                                lemma_contains_text_append(a, cell@, "Light Strips:"@);
                            }
                            if had_groups {
                                lemma_contains_text_append(a, cell@, "Bulb Groups:"@);
                            }
                        }
                        let ghost a2 = out@;
                        out.append("\n");
                        proof {
                            lemma_contains_text_append(a2, "\n"@, "Bulbs:"@);
                            if had_strips {
                                lemma_contains_text_append(a2, "\n"@, "Light Strips:"@);
                            }
                            if had_groups {
                                lemma_contains_text_append(a2, "\n"@, "Bulb Groups:"@);
                            }
                        }
                    },
                    None => {},
                }
            }
        }
        proof {
            if exists|k: u32| self@.contains_key(k) && (#[trigger] self@[k]) is Strip {
                let k = choose|k: u32| self@.contains_key(k) && (#[trigger] self@[k]) is Strip;
                assert(strips@.contains(k));
            }
            if exists|k: u32| self@.contains_key(k) && (#[trigger] self@[k]) is Group {
                let k = choose|k: u32| self@.contains_key(k) && (#[trigger] self@[k]) is Group;
                assert(groups@.contains(k));
            }
            if exists|k: u32| self@.contains_key(k) && (#[trigger] self@[k]) is Bulb {
                let k = choose|k: u32| self@.contains_key(k) && (#[trigger] self@[k]) is Bulb;
                assert(bulbs@.contains(k));
            }
        }
        out
    }
}

} // verus!
