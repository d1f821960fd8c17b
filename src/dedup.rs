use vstd::prelude::*;
use crate::facility::{Facility, FacilityId, FacilityView, push_facility};

verus! {

/// The identities of `s`, in order.
pub open spec fn ids_of(s: Seq<FacilityView>) -> Seq<FacilityId> {
    s.map_values(|f: FacilityView| f.id())
}

/// The first facility of each identity in `s`, in the order of `s`.
pub open spec fn dedup(s: Seq<FacilityView>) -> Seq<FacilityView>
    decreases s.len(),
{
    if s.len() == 0 {
        Seq::empty()
    } else {
        let d = dedup(s.drop_last());
        if ids_of(d).contains(s.last().id()) {
            d
        } else {
            d.push(s.last())
        }
    }
}

/// No facility before position `i` of `s` has the identity of `s[i]`.
pub open spec fn first_occurrence(s: Seq<FacilityView>, i: int) -> bool {
    forall|j: int| 0 <= j < i ==> (#[trigger] s[j]).id() != s[i].id()
}

/// The facilities kept so far, unique by identity, in the order in which
/// they were first offered.
pub struct DeduplicationState {
    facilities: Vec<Facility>,
}

impl View for DeduplicationState {
    type V = Seq<FacilityView>;

    closed spec fn view(&self) -> Seq<FacilityView> {
        self.facilities@.map_values(|f: Facility| f@)
    }
}

impl DeduplicationState {
    /// Nothing kept yet.
    pub fn new() -> (r: DeduplicationState)
        ensures
            r@ == Seq::<FacilityView>::empty(),
    {
        let r = DeduplicationState { facilities: Vec::new() };
        assert(r@ =~= Seq::<FacilityView>::empty());
        r
    }

    /// Keeps `facility` unless one of the same identity was kept before.
    pub fn add_facility(self, facility: Facility) -> (r: DeduplicationState)
        ensures
            r@ == if ids_of(self@).contains(facility@.id()) {
                self@
            } else {
                self@.push(facility@)
            },
    {
        let mut s = self;
        let id = facility.id();
        let n = s.facilities.len();
        let mut i: usize = 0;
        while i < n
            invariant
                n == s.facilities@.len(),
                s@ == self@,
                0 <= i <= n,
                id == facility@.id(),
                forall|j: int| 0 <= j < i ==> (#[trigger] ids_of(self@)[j]) != id,
            decreases n - i,
        {
            assert(ids_of(self@)[i as int] == s.facilities@[i as int]@.id());
            if s.facilities[i].id() == id {
                return s;
            }
            i += 1;
        }
        push_facility(&mut s.facilities, facility);
        s
    }

    /// The facilities kept, in order.
    pub fn into_unique_facilities(self) -> (r: Vec<Facility>)
        ensures
            r@.map_values(|f: Facility| f@) == self@,
    {
        self.facilities
    }
}

/// The first facility of each identity in `facilities`, in their order.
pub fn deduplicate(facilities: Vec<Facility>) -> (r: Vec<Facility>)
    ensures
        r@.map_values(|f: Facility| f@) == dedup(facilities@.map_values(|f: Facility| f@)),
{
    let ghost all = facilities@.map_values(|f: Facility| f@);
    let mut state = DeduplicationState::new();
    assert(state@ =~= dedup(all.take(0)));
    for f in it: facilities.into_iter()
        invariant
            it.seq().map_values(|f: Facility| f@) == all,
            state@ == dedup(all.take(it.index() as int)),
    {
        let ghost i = it.index();
        proof {
            assert(all.take(i + 1).drop_last() =~= all.take(i as int));
            assert(all[i as int] == f@);
        }
        state = state.add_facility(f);
    }
    assert(all.take(all.len() as int) =~= all);
    state.into_unique_facilities()
}

/// `idx` places each facility of `d` at a first occurrence of `s`, in
/// increasing order of position.
pub open spec fn embeds(s: Seq<FacilityView>, d: Seq<FacilityView>, idx: Seq<int>) -> bool {
    &&& idx.len() == d.len()
    &&& forall|k: int|
        0 <= k < d.len() ==> 0 <= #[trigger] idx[k] < s.len() && d[k] == s[idx[k]]
            && first_occurrence(s, idx[k])
    &&& forall|k1: int, k2: int| 0 <= k1 < k2 < d.len() ==> #[trigger] idx[k1] < #[trigger] idx[k2]
}

/// No two facilities of `d` share an identity.
pub open spec fn unique_ids(d: Seq<FacilityView>) -> bool {
    forall|a: int, b: int| 0 <= a < b < d.len() ==> (#[trigger] d[a]).id() != (#[trigger] d[b]).id()
}

proof fn lemma_prefix_first_occurrence(s: Seq<FacilityView>, i: int)
    requires
        s.len() > 0,
        0 <= i < s.len() - 1,
    ensures
        s.drop_last()[i] == s[i],
        first_occurrence(s, i) == first_occurrence(s.drop_last(), i),
{
    let p = s.drop_last();
    assert forall|j: int| 0 <= j < i implies p[j] == s[j] by {}
    if first_occurrence(p, i) {
        assert forall|j: int| 0 <= j < i implies (#[trigger] s[j]).id() != s[i].id() by {
            assert(p[j] == s[j]);
        }
    }
    if first_occurrence(s, i) {
        assert forall|j: int| 0 <= j < i implies (#[trigger] p[j]).id() != p[i].id() by {
            assert(p[j] == s[j]);
        }
    }
}

proof fn lemma_dedup_ids(s: Seq<FacilityView>)
    ensures
        forall|id: FacilityId|
            ids_of(dedup(s)).contains(id) <==> exists|i: int| 0 <= i < s.len() && #[trigger] s[i].id() == id,
    decreases s.len(),
{
    if s.len() > 0 {
        let p = s.drop_last();
        let x = s.last();
        let d = dedup(p);
        lemma_dedup_ids(p);
        let e = dedup(s);
        assert forall|id: FacilityId|
            ids_of(e).contains(id) <==> exists|i: int| 0 <= i < s.len() && #[trigger] s[i].id() == id by {
            if ids_of(e).contains(id) {
                let k = choose|k: int| 0 <= k < ids_of(e).len() && ids_of(e)[k] == id;
                if k < d.len() {
                    assert(e[k] == d[k]);
                    assert(ids_of(e)[k] == e[k].id());
                    assert(ids_of(d)[k] == id);
                    assert(ids_of(d).contains(id));
                    let i = choose|i: int| 0 <= i < p.len() && #[trigger] p[i].id() == id;
                    assert(s[i] == p[i]);
                } else {
                    assert(s[p.len() as int].id() == id);
                }
            }
            if exists|i: int| 0 <= i < s.len() && #[trigger] s[i].id() == id {
                let i = choose|i: int| 0 <= i < s.len() && #[trigger] s[i].id() == id;
                if i < p.len() {
                    assert(p[i] == s[i]);
                    assert(ids_of(d).contains(id));
                    let k = choose|k: int| 0 <= k < ids_of(d).len() && ids_of(d)[k] == id;
                    assert(ids_of(e)[k] == id);
                } else if !ids_of(d).contains(x.id()) {
                    assert(ids_of(e)[d.len() as int] == id);
                }
            }
        }
    }
}

proof fn lemma_dedup_unique(s: Seq<FacilityView>)
    ensures
        unique_ids(dedup(s)),
    decreases s.len(),
{
    if s.len() > 0 {
        let p = s.drop_last();
        let x = s.last();
        let d = dedup(p);
        lemma_dedup_unique(p);
        if !ids_of(d).contains(x.id()) {
            let e = d.push(x);
            assert forall|a: int, b: int| 0 <= a < b < e.len() implies (#[trigger] e[a]).id() != (
            #[trigger] e[b]).id() by {
                if b == d.len() {
                    assert(ids_of(d)[a] == d[a].id());
                } else {
                    assert(e[a] == d[a] && e[b] == d[b]);
                }
            }
        }
    }
}

proof fn lemma_dedup_embeds(s: Seq<FacilityView>) -> (idx: Seq<int>)
    ensures
        embeds(s, dedup(s), idx),
    decreases s.len(),
{
    if s.len() == 0 {
        Seq::empty()
    } else {
        let p = s.drop_last();
        let x = s.last();
        let d = dedup(p);
        let prev = lemma_dedup_embeds(p);
        assert forall|k: int| 0 <= k < d.len() implies first_occurrence(s, #[trigger] prev[k]) && d[k] == s[prev[k]] by {
            lemma_prefix_first_occurrence(s, prev[k]);
        }
        if ids_of(d).contains(x.id()) {
            prev
        } else {
            lemma_dedup_ids(p);
            assert(first_occurrence(s, p.len() as int)) by {
                assert forall|j: int| 0 <= j < p.len() implies (#[trigger] s[j]).id() != x.id() by {
                    assert(s[j] == p[j]);
                }
            }
            let idx = prev.push(p.len() as int);
            assert forall|k1: int, k2: int| 0 <= k1 < k2 < idx.len() implies #[trigger] idx[k1] < #[trigger] idx[k2] by {
                if k2 < prev.len() {
                    assert(idx[k1] == prev[k1] && idx[k2] == prev[k2]);
                }
            }
            assert forall|k: int| 0 <= k < idx.len() implies 0 <= #[trigger] idx[k] < s.len() && dedup(s)[k] == s[idx[k]]
                && first_occurrence(s, idx[k]) by {
                if k < prev.len() {
                    assert(idx[k] == prev[k]);
                }
            }
            idx
        }
    }
}

/// Deduplication keeps exactly the first facility of each identity, in the
/// order in which they were found: no two kept facilities share an
/// identity; an identity is kept exactly where it occurs; and the kept
/// facilities are first occurrences, in the order of their positions.
pub proof fn dedup_keeps_first_occurrences(s: Seq<FacilityView>)
    ensures
        unique_ids(dedup(s)),
        forall|id: FacilityId|
            ids_of(dedup(s)).contains(id) <==> exists|i: int| 0 <= i < s.len() && #[trigger] s[i].id() == id,
        exists|idx: Seq<int>| #[trigger] embeds(s, dedup(s), idx),
{
    lemma_dedup_unique(s);
    lemma_dedup_ids(s);
    let idx = lemma_dedup_embeds(s);
}

} // verus!
