//! The records of all monitored endpoints, one per distinct endpoint, in the
//! order in which the endpoints were first named.

use crate::clock::utc_now;
use crate::metrics::{Metrics, MetricsView, Observation};
use vstd::prelude::*;

verus! {

/// Whether some record belongs to `name`.
pub open spec fn holds(s: Seq<MetricsView>, name: Seq<char>) -> bool {
    exists|i: int| 0 <= i < s.len() && (#[trigger] s[i]).endpoint == name
}

/// The place of the record of `name`, where there is one.
pub open spec fn position(s: Seq<MetricsView>, name: Seq<char>) -> int {
    choose|i: int| 0 <= i < s.len() && (#[trigger] s[i]).endpoint == name
}

/// No two records belong to the same endpoint.
pub open spec fn distinct(s: Seq<MetricsView>) -> bool {
    forall|i: int, j: int|
        0 <= i < j < s.len() ==> (#[trigger] s[i]).endpoint != (#[trigger] s[j]).endpoint
}

/// The record of `name`, if there is one.
pub open spec fn lookup(s: Seq<MetricsView>, name: Seq<char>) -> Option<MetricsView> {
    if holds(s, name) {
        Some(s[position(s, name)])
    } else {
        None
    }
}

/// The records with which monitoring starts: one fresh record for every
/// endpoint named, at the place of its first mention.
pub open spec fn fresh_records(names: Seq<Seq<char>>) -> Seq<MetricsView>
    decreases names.len(),
{
    if names.len() == 0 {
        Seq::empty()
    } else {
        let rest = fresh_records(names.drop_last());
        if holds(rest, names.last()) {
            rest
        } else {
            rest.push(MetricsView::fresh(names.last()))
        }
    }
}

/// The records after one observation of `name`: its record takes the
/// observation, all others stay.
pub open spec fn observed(s: Seq<MetricsView>, name: Seq<char>, o: Observation, interval: u64) -> Seq<
    MetricsView,
> {
    let i = position(s, name);
    s.update(i, s[i].observe(o, interval))
}

/// The characters of each string.
pub open spec fn views(names: Seq<String>) -> Seq<Seq<char>> {
    names.map_values(|s: String| s@)
}

/// In a sequence without duplicates, a record is found at its own place.
pub proof fn lemma_position_unique(s: Seq<MetricsView>, i: int)
    requires
        distinct(s),
        0 <= i < s.len(),
    ensures
        holds(s, s[i].endpoint),
        position(s, s[i].endpoint) == i,
{
    let j = position(s, s[i].endpoint);
    assert(0 <= j < s.len() && s[j].endpoint == s[i].endpoint);
    if j < i {
        assert(s[j].endpoint != s[i].endpoint);
    } else if i < j {
        assert(s[i].endpoint != s[j].endpoint);
    }
}

#[derive(Debug)]
pub struct MetricsStore {
    records: Vec<Metrics>,
}

impl View for MetricsStore {
    type V = Seq<MetricsView>;

    closed spec fn view(&self) -> Seq<MetricsView> {
        self.records@.map_values(|m: Metrics| m@)
    }
}

impl MetricsStore {
    /// The invariant of a store: endpoints are distinct, and every record is
    /// consistent.
    pub open spec fn wf(&self) -> bool {
        &&& distinct(self@)
        &&& forall|i: int| 0 <= i < self@.len() ==> (#[trigger] self@[i]).consistent()
    }

    /// A store with a fresh record for every endpoint named.
    pub fn new(endpoints: &Vec<String>) -> (store: MetricsStore)
        ensures
            store.wf(),
            store@ == fresh_records(views(endpoints@)),
    {
        let mut store = MetricsStore { records: Vec::new() };
        let mut k: usize = 0;
        assert(views(endpoints@).take(0) =~= Seq::empty());
        while k < endpoints.len()
            invariant
                k <= endpoints.len(),
                store.wf(),
                store@ == fresh_records(views(endpoints@).take(k as int)),
            decreases endpoints.len() - k,
        {
            let ghost names = views(endpoints@);
            assert(names.take(k + 1).drop_last() =~= names.take(k as int));
            assert(names.take(k + 1).last() == endpoints@[k as int]@);
            if store.find(endpoints[k].as_str()).is_none() {
                let ghost before = store@;
                store.records.push(Metrics::new(endpoints[k].clone()));
                assert(store@ =~= before.push(MetricsView::fresh(endpoints@[k as int]@)));
                assert forall|i: int, j: int| 0 <= i < j < store@.len() implies (
                #[trigger] store@[i]).endpoint != (#[trigger] store@[j]).endpoint by {
                    assert(store@[i] == before[i]);
                    if j < before.len() {
                        assert(store@[j] == before[j]);
                    }
                }
            }
            k = k + 1;
        }
        assert(views(endpoints@).take(k as int) =~= views(endpoints@));
        store
    }

    /// The place of the record of `endpoint`.
    pub fn find(&self, endpoint: &str) -> (r: Option<usize>)
        requires
            self.wf(),
        ensures
            r.is_some() == holds(self@, endpoint@),
            r matches Some(i) ==> i == position(self@, endpoint@) && i < self@.len() && self@[i as int].endpoint
                == endpoint@,
    {
        let key = String::from_str(endpoint);
        let mut i: usize = 0;
        while i < self.records.len()
            invariant
                i <= self.records.len(),
                self.wf(),
                key@ == endpoint@,
                forall|j: int| 0 <= j < i ==> (#[trigger] self@[j]).endpoint != endpoint@,
            decreases self.records.len() - i,
        {
            if *self.records[i].endpoint() == key {
                assert(self@[i as int].endpoint == endpoint@);
                proof {
                    lemma_position_unique(self@, i as int);
                }
                return Some(i);
            }
            i = i + 1;
        }
        None
    }

    /// The record of `endpoint`, if it is monitored.
    pub fn get(&self, endpoint: &str) -> (r: Option<&Metrics>)
        requires
            self.wf(),
        ensures
            r.is_some() == holds(self@, endpoint@),
            r matches Some(m) ==> Some(m@) == lookup(self@, endpoint@) && m.wf(),
    {
        match self.find(endpoint) {
            Some(i) => {
                proof {
                    lemma_position_unique(self@, i as int);
                }
                Some(&self.records[i])
            },
            None => None,
        }
    }

    /// The number of records.
    pub fn len(&self) -> (n: usize)
        ensures
            n == self@.len(),
    {
        self.records.len()
    }

    /// The record at place `i`.
    pub fn entry(&self, i: usize) -> (m: &Metrics)
        requires
            self.wf(),
            i < self@.len(),
        ensures
            m@ == self@[i as int],
            m.wf(),
    {
        &self.records[i]
    }

    /// Applies one observation, taken at `o.at`, to the record of `endpoint`.
    pub fn record_at(&mut self, endpoint: &str, o: Observation, interval: u64)
        requires
            old(self).wf(),
            holds(old(self)@, endpoint@),
            old(self)@[position(old(self)@, endpoint@)].total_checks < 0xffff_ffff_ffff_ffff,
        ensures
            final(self).wf(),
            final(self)@ == observed(old(self)@, endpoint@, o, interval),
    {
        let found = self.find(endpoint);
        let i = found.unwrap();
        proof {
            lemma_position_unique(self@, i as int);
        }
        let ghost before = self@;
        self.records[i].record_at(o, interval);
        assert(self@ =~= before.update(i as int, before[i as int].observe(o, interval)));
        assert forall|a: int, b: int| 0 <= a < b < self@.len() implies (#[trigger] self@[a]).endpoint != (
        #[trigger] self@[b]).endpoint by {
            assert(self@[a].endpoint == before[a].endpoint);
            assert(self@[b].endpoint == before[b].endpoint);
        }
        assert forall|a: int| 0 <= a < self@.len() implies (#[trigger] self@[a]).consistent() by {
            if a != i {
                assert(self@[a] == before[a]);
            }
        }
    }

    /// Applies one observation to the record of `endpoint`, taken at the
    /// current time. Where the clock gives no time, nothing is recorded and
    /// the result is `false`.
    pub fn record(&mut self, endpoint: &str, success: bool, elapsed_micros: u64, interval: u64) -> (r: bool)
        requires
            old(self).wf(),
            holds(old(self)@, endpoint@),
            old(self)@[position(old(self)@, endpoint@)].total_checks < 0xffff_ffff_ffff_ffff,
        ensures
            final(self).wf(),
            !r ==> final(self)@ == old(self)@,
            r ==> exists|at: crate::metrics::Timestamp|
                final(self)@ == observed(
                    old(self)@,
                    endpoint@,
                    (Observation { success, elapsed_micros, at }),
                    interval,
                ),
    {
        match utc_now() {
            Some(at) => {
                self.record_at(endpoint, Observation { success, elapsed_micros, at }, interval);
                true
            },
            None => false,
        }
    }
}


/// Two sequences with the same endpoints at the same places hold the same
/// endpoints, at the same places.
pub proof fn lemma_same_names_same_position(a: Seq<MetricsView>, b: Seq<MetricsView>, name: Seq<char>)
    requires
        distinct(a),
        distinct(b),
        a.len() == b.len(),
        forall|i: int| 0 <= i < a.len() ==> (#[trigger] a[i]).endpoint == b[i].endpoint,
        holds(a, name),
    ensures
        holds(b, name),
        position(b, name) == position(a, name),
        0 <= position(a, name) < a.len(),
        a[position(a, name)].endpoint == name,
{
    let i = position(a, name);
    assert(a[i].endpoint == b[i].endpoint);
    lemma_position_unique(b, i);
}

/// One observation changes one record and no endpoint: what was held stays
/// held, at the same place.
pub proof fn lemma_observed_keeps_names(s: Seq<MetricsView>, name: Seq<char>, o: Observation, interval: u64)
    requires
        distinct(s),
        holds(s, name),
    ensures
        observed(s, name, o, interval).len() == s.len(),
        forall|i: int|
            0 <= i < s.len() ==> (#[trigger] observed(s, name, o, interval)[i]).endpoint == s[i].endpoint,
        forall|i: int|
            0 <= i < s.len() && i != position(s, name) ==> #[trigger] observed(s, name, o, interval)[i]
                == s[i],
        distinct(observed(s, name, o, interval)),
        forall|n: Seq<char>| #[trigger] holds(observed(s, name, o, interval), n) == holds(s, n),
        forall|n: Seq<char>|
            holds(s, n) ==> #[trigger] position(observed(s, name, o, interval), n) == position(s, n),
{
    let t = observed(s, name, o, interval);
    let p = position(s, name);
    assert(0 <= p < s.len() && s[p].endpoint == name);
    assert forall|i: int| 0 <= i < s.len() implies (#[trigger] t[i]).endpoint == s[i].endpoint by {}
    assert forall|i: int, j: int| 0 <= i < j < t.len() implies (#[trigger] t[i]).endpoint != (
    #[trigger] t[j]).endpoint by {
        assert(t[i].endpoint == s[i].endpoint);
        assert(t[j].endpoint == s[j].endpoint);
    }
    assert forall|n: Seq<char>| #[trigger] holds(t, n) == holds(s, n) by {
        if holds(s, n) {
            let i = position(s, n);
            assert(t[i].endpoint == n);
        }
        if holds(t, n) {
            let i = position(t, n);
            assert(s[i].endpoint == n);
        }
    }
    assert forall|n: Seq<char>| holds(s, n) implies #[trigger] position(t, n) == position(s, n) by {
        let i = position(s, n);
        assert(t[i].endpoint == n);
        lemma_position_unique(t, i);
    }
}

/// Every endpoint named has a record among the fresh ones, and every fresh
/// record belongs to an endpoint named.
pub proof fn lemma_fresh_records(names: Seq<Seq<char>>)
    ensures
        distinct(fresh_records(names)),
        forall|j: int| 0 <= j < names.len() ==> holds(fresh_records(names), #[trigger] names[j]),
        forall|i: int|
            0 <= i < fresh_records(names).len() ==> names.contains(
                (#[trigger] fresh_records(names)[i]).endpoint,
            ) && fresh_records(names)[i] == MetricsView::fresh(fresh_records(names)[i].endpoint),
    decreases names.len(),
{
    if names.len() > 0 {
        let init = names.drop_last();
        lemma_fresh_records(init);
        let rest = fresh_records(init);
        let all = fresh_records(names);
        assert forall|j: int| 0 <= j < names.len() implies holds(all, #[trigger] names[j]) by {
            if j < init.len() {
                assert(names[j] == init[j]);
                let i = position(rest, init[j]);
                assert(all[i].endpoint == names[j]);
            } else if holds(rest, names.last()) {
            } else {
                assert(all[rest.len() as int].endpoint == names[j]);
            }
        }
        assert forall|i: int| 0 <= i < all.len() implies names.contains((#[trigger] all[i]).endpoint)
            && all[i] == MetricsView::fresh(all[i].endpoint) by {
            if i < rest.len() {
                assert(all[i] == rest[i]);
                let j = choose|j: int| 0 <= j < init.len() && init[j] == rest[i].endpoint;
                assert(names[j] == rest[i].endpoint);
            } else {
                assert(names[names.len() - 1] == all[i].endpoint);
            }
        }
        assert forall|a: int, b: int| 0 <= a < b < all.len() implies (#[trigger] all[a]).endpoint != (
        #[trigger] all[b]).endpoint by {
            assert(all[a] == rest[a]);
            if b < rest.len() {
                assert(all[b] == rest[b]);
            }
        }
    }
}

} // verus!
