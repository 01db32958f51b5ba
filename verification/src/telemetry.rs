use crate::amount::{Amount, BasisPoints, U128_MAX};
use crate::capital::{sat, saturating_mul};
use crate::error::{EclipseError, Result};
use crate::ids::{BatchId, OperatorId, RouteId};
use crate::store::{lemma_store_map_index, Keyed, KeyedStore};
use crate::text::push_str;
use vstd::prelude::*;

verus! {

/// A named count that only grows, saturating at the largest `u128`.
#[derive(Debug, PartialEq, Eq)]
pub struct Counter {
    pub name: String,
    pub value: u128,
}

impl Clone for Counter {
    fn clone(&self) -> (r: Self)
        ensures
            r == *self,
    {
        Counter { name: self.name.clone(), value: self.value }
    }
}

impl Keyed for Counter {
    open spec fn key(&self) -> Seq<char> {
        self.name@
    }

    fn key_str(&self) -> (r: &str) {
        self.name.as_str()
    }
}

impl Counter {
    pub fn new(name: &str) -> (r: Counter)
        ensures
            r.name@ == name@,
            r.value == 0,
    {
        Counter { name: name.to_owned(), value: 0 }
    }

    pub fn increment(&mut self, by: u128)
        ensures
            final(self).name == old(self).name,
            final(self).value == sat(old(self).value + by),
    {
        self.value = self.value.saturating_add(by);
    }

    pub fn reset(&mut self)
        ensures
            final(self).name == old(self).name,
            final(self).value == 0,
    {
        self.value = 0;
    }
}

/// A named signed reading.
#[derive(Debug, PartialEq, Eq)]
pub struct Gauge {
    pub name: String,
    pub value: i128,
}

impl Clone for Gauge {
    fn clone(&self) -> (r: Self)
        ensures
            r == *self,
    {
        Gauge { name: self.name.clone(), value: self.value }
    }
}

impl Keyed for Gauge {
    open spec fn key(&self) -> Seq<char> {
        self.name@
    }

    fn key_str(&self) -> (r: &str) {
        self.name.as_str()
    }
}

/// `a + b` clamped to the range of `i128`.
pub open spec fn sat_i128(x: int) -> int {
    if x > i128::MAX { i128::MAX as int } else if x < i128::MIN { i128::MIN as int } else { x }
}

impl Gauge {
    pub fn new(name: &str) -> (r: Gauge)
        ensures
            r.name@ == name@,
            r.value == 0,
    {
        Gauge { name: name.to_owned(), value: 0 }
    }

    pub fn set(&mut self, value: i128)
        ensures
            final(self).name == old(self).name,
            final(self).value == value,
    {
        self.value = value;
    }

    pub fn add(&mut self, delta: i128)
        ensures
            final(self).name == old(self).name,
            final(self).value == sat_i128(old(self).value + delta),
    {
        self.value = if delta > 0 && self.value > i128::MAX - delta {
            i128::MAX
        } else if delta < 0 && self.value < i128::MIN - delta {
            i128::MIN
        } else {
            self.value + delta
        };
    }
}

/// Observed values with the bucket bounds they are counted against.
#[derive(Debug, PartialEq, Eq)]
pub struct Histogram {
    pub name: String,
    pub buckets: Vec<u128>,
    pub observations: Vec<u128>,
}

impl Clone for Histogram {
    fn clone(&self) -> (r: Self)
        ensures
            r.name == self.name,
            r.buckets@ == self.buckets@,
            r.observations@ == self.observations@,
    {
        Histogram { name: self.name.clone(), buckets: self.buckets.clone(), observations: self.observations.clone() }
    }
}

impl Keyed for Histogram {
    open spec fn key(&self) -> Seq<char> {
        self.name@
    }

    fn key_str(&self) -> (r: &str) {
        self.name.as_str()
    }
}

/// The observations added up left to right, saturating.
pub open spec fn saturating_total(s: Seq<u128>) -> int
    decreases s.len(),
{
    if s.len() == 0 { 0 } else { sat(saturating_total(s.drop_last()) + s.last()) }
}

/// How many observations are at most `bound`.
pub open spec fn count_at_most(s: Seq<u128>, bound: u128) -> nat
    decreases s.len(),
{
    if s.len() == 0 {
        0
    } else {
        count_at_most(s.drop_last(), bound) + if s.last() <= bound { 1nat } else { 0nat }
    }
}

impl Histogram {
    pub fn new(name: &str, buckets: Vec<u128>) -> (r: Histogram)
        ensures
            r.name@ == name@,
            r.buckets@ == buckets@,
            r.observations@ == Seq::<u128>::empty(),
    {
        Histogram { name: name.to_owned(), buckets, observations: Vec::new() }
    }

    pub fn observe(&mut self, value: u128)
        ensures
            final(self).name == old(self).name,
            final(self).buckets@ == old(self).buckets@,
            final(self).observations@ == old(self).observations@.push(value),
    {
        self.observations.push(value);
    }

    pub fn count(&self) -> (r: usize)
        ensures
            r == self.observations@.len(),
    {
        self.observations.len()
    }

    pub fn sum(&self) -> (r: u128)
        ensures
            r == saturating_total(self.observations@),
    {
        let mut acc: u128 = 0;
        let mut i: usize = 0;
        while i < self.observations.len()
            invariant
                i <= self.observations@.len(),
                acc == saturating_total(self.observations@.take(i as int)),
            decreases self.observations@.len() - i,
        {
            proof { assert(self.observations@.take(i + 1).drop_last() == self.observations@.take(i as int)); }
            acc = acc.saturating_add(self.observations[i]);
            i = i + 1;
        }
        proof { assert(self.observations@.take(i as int) == self.observations@); }
        acc
    }

    pub fn max(&self) -> (r: Option<u128>)
        ensures
            self.observations@.len() == 0 ==> r is None,
            self.observations@.len() > 0 ==> r is Some && self.observations@.contains(r->Some_0)
                && forall|i: int| 0 <= i < self.observations@.len() ==> #[trigger] self.observations@[i] <= r->Some_0,
    {
        if self.observations.len() == 0 {
            return None;
        }
        let mut best = self.observations[0];
        let mut i: usize = 1;
        while i < self.observations.len()
            invariant
                1 <= i <= self.observations@.len(),
                self.observations@.contains(best),
                forall|j: int| 0 <= j < i ==> #[trigger] self.observations@[j] <= best,
            decreases self.observations@.len() - i,
        {
            if self.observations[i] >= best {
                best = self.observations[i];
            }
            i = i + 1;
        }
        Some(best)
    }

    /// Each bucket bound with the number of observations at most that bound.
    pub fn bucket_counts(&self) -> (r: Vec<(u128, usize)>)
        ensures
            r@.len() == self.buckets@.len(),
            forall|i: int| 0 <= i < r@.len() ==> (#[trigger] r@[i]).0 == self.buckets@[i]
                && r@[i].1 == count_at_most(self.observations@, self.buckets@[i]),
    {
        let mut out: Vec<(u128, usize)> = Vec::new();
        let mut b: usize = 0;
        while b < self.buckets.len()
            invariant
                b <= self.buckets@.len(),
                out@.len() == b,
                forall|i: int| 0 <= i < b ==> (#[trigger] out@[i]).0 == self.buckets@[i]
                    && out@[i].1 == count_at_most(self.observations@, self.buckets@[i]),
            decreases self.buckets@.len() - b,
        {
            let bound = self.buckets[b];
            let mut count: usize = 0;
            let mut i: usize = 0;
            while i < self.observations.len()
                invariant
                    i <= self.observations@.len(),
                    count == count_at_most(self.observations@.take(i as int), bound),
                    count <= i,
                decreases self.observations@.len() - i,
            {
                proof { assert(self.observations@.take(i + 1).drop_last() == self.observations@.take(i as int)); }
                if self.observations[i] <= bound {
                    count = count + 1;
                }
                i = i + 1;
            }
            proof { assert(self.observations@.take(i as int) == self.observations@); }
            out.push((bound, count));
            b = b + 1;
        }
        out
    }
}

/// The bucket bounds of the settlement histograms.
fn default_bounds() -> (r: Vec<u128>)
    ensures
        r@ == seq![100u128, 1_000, 10_000, 100_000],
{
    let mut v: Vec<u128> = Vec::new();
    v.push(100);
    v.push(1_000);
    v.push(10_000);
    v.push(100_000);
    v
}

/// Counters, gauges and histograms by name.
#[derive(Clone, Debug)]
pub struct TelemetryRegistry {
    pub counters: KeyedStore<Counter>,
    pub gauges: KeyedStore<Gauge>,
    pub histograms: KeyedStore<Histogram>,
}

/// The value of the counter `name`, zero when there is none.
pub open spec fn counter_of(counters: Map<Seq<char>, Counter>, name: Seq<char>) -> u128 {
    if counters.dom().contains(name) { counters[name].value } else { 0 }
}

/// The value of the gauge `name`, zero when there is none.
pub open spec fn gauge_of(gauges: Map<Seq<char>, Gauge>, name: Seq<char>) -> i128 {
    if gauges.dom().contains(name) { gauges[name].value } else { 0 }
}

/// The observations of the histogram `name`, none when there is none.
pub open spec fn observations_of(histograms: Map<Seq<char>, Histogram>, name: Seq<char>) -> Seq<u128> {
    if histograms.dom().contains(name) { histograms[name].observations@ } else { Seq::empty() }
}

impl Default for TelemetryRegistry {
    fn default() -> (r: TelemetryRegistry)
        ensures
            r.wf(),
            r.counters@ == Seq::<Counter>::empty(),
            r.gauges@ == Seq::<Gauge>::empty(),
            r.histograms@ == Seq::<Histogram>::empty(),
    {
        TelemetryRegistry::new()
    }
}

impl TelemetryRegistry {
    pub open spec fn wf(&self) -> bool {
        self.counters.wf() && self.gauges.wf() && self.histograms.wf()
    }

    pub fn new() -> (r: TelemetryRegistry)
        ensures
            r.wf(),
            r.counters@ == Seq::<Counter>::empty(),
            r.gauges@ == Seq::<Gauge>::empty(),
            r.histograms@ == Seq::<Histogram>::empty(),
    {
        TelemetryRegistry { counters: KeyedStore::new(), gauges: KeyedStore::new(), histograms: KeyedStore::new() }
    }

    /// The counter `name`, created at zero if there is none; to be changed in place. A change that
    /// keeps the name keeps the registry well formed and replaces that counter.
    pub fn counter_mut(&mut self, name: &str) -> (r: &mut Counter)
        requires
            old(self).wf(),
        ensures
            old(self).counters.map().dom().contains(name@) ==> *r == old(self).counters.map()[name@],
            !old(self).counters.map().dom().contains(name@) ==> r.name@ == name@ && r.value == 0,
            final(self).gauges == old(self).gauges,
            final(self).histograms == old(self).histograms,
            final(r).key() == name@ ==> final(self).wf()
                && final(self).counters.map() == old(self).counters.map().insert(name@, *final(r)),
    {
        let fresh = Counter::new(name);
        self.counters.entry_or_insert(name, fresh)
    }

    /// The gauge `name`, created at zero if there is none; to be changed in place. A change that
    /// keeps the name keeps the registry well formed and replaces that gauge.
    pub fn gauge_mut(&mut self, name: &str) -> (r: &mut Gauge)
        requires
            old(self).wf(),
        ensures
            old(self).gauges.map().dom().contains(name@) ==> *r == old(self).gauges.map()[name@],
            !old(self).gauges.map().dom().contains(name@) ==> r.name@ == name@ && r.value == 0,
            final(self).counters == old(self).counters,
            final(self).histograms == old(self).histograms,
            final(r).key() == name@ ==> final(self).wf()
                && final(self).gauges.map() == old(self).gauges.map().insert(name@, *final(r)),
    {
        let fresh = Gauge::new(name);
        self.gauges.entry_or_insert(name, fresh)
    }

    /// The histogram `name`, created with `buckets` and no observation if there is none (an existing
    /// histogram keeps its buckets); to be changed in place. A change that keeps the name keeps the
    /// registry well formed and replaces that histogram.
    pub fn histogram_mut(&mut self, name: &str, buckets: Vec<u128>) -> (r: &mut Histogram)
        requires
            old(self).wf(),
        ensures
            old(self).histograms.map().dom().contains(name@) ==> *r == old(self).histograms.map()[name@],
            !old(self).histograms.map().dom().contains(name@) ==> r.name@ == name@ && r.buckets@ == buckets@
                && r.observations@.len() == 0,
            final(self).counters == old(self).counters,
            final(self).gauges == old(self).gauges,
            final(r).key() == name@ ==> final(self).wf()
                && final(self).histograms.map() == old(self).histograms.map().insert(name@, *final(r)),
    {
        let fresh = Histogram::new(name, buckets);
        self.histograms.entry_or_insert(name, fresh)
    }

    /// Adds `by` to the counter `name`, creating it at zero first if needed.
    fn increment_counter(&mut self, name: &str, by: u128)
        requires
            old(self).wf(),
        ensures
            final(self).wf(),
            final(self).counters.map().dom() == old(self).counters.map().dom().insert(name@),
            forall|k: Seq<char>| k != name@ ==> #[trigger] counter_of(final(self).counters.map(), k)
                == counter_of(old(self).counters.map(), k),
            forall|k: Seq<char>| k != name@ && old(self).counters.map().dom().contains(k)
                ==> #[trigger] final(self).counters.map()[k] == old(self).counters.map()[k],
            counter_of(final(self).counters.map(), name@) == sat(counter_of(old(self).counters.map(), name@) + by),
            final(self).gauges == old(self).gauges,
            final(self).histograms == old(self).histograms,
    {
        let ghost m0 = self.counters.map();
        let c = self.counter_mut(name);
        c.increment(by);
        proof { assert(self.counters.map().dom() =~= m0.dom().insert(name@)); }
    }

    /// Sets the gauge `name`, creating it if needed.
    fn set_gauge(&mut self, name: &str, value: i128)
        requires
            old(self).wf(),
        ensures
            final(self).wf(),
            final(self).gauges.map().dom() == old(self).gauges.map().dom().insert(name@),
            forall|k: Seq<char>| k != name@ ==> #[trigger] gauge_of(final(self).gauges.map(), k)
                == gauge_of(old(self).gauges.map(), k),
            forall|k: Seq<char>| k != name@ && old(self).gauges.map().dom().contains(k)
                ==> #[trigger] final(self).gauges.map()[k] == old(self).gauges.map()[k],
            gauge_of(final(self).gauges.map(), name@) == value,
            final(self).counters == old(self).counters,
            final(self).histograms == old(self).histograms,
    {
        let ghost m0 = self.gauges.map();
        let g = self.gauge_mut(name);
        g.set(value);
        proof { assert(self.gauges.map().dom() =~= m0.dom().insert(name@)); }
    }

    /// Records `value` in the histogram `name`, creating it with `buckets` if needed.
    fn observe_histogram(&mut self, name: &str, buckets: Vec<u128>, value: u128)
        requires
            old(self).wf(),
        ensures
            final(self).wf(),
            final(self).histograms.map().dom() == old(self).histograms.map().dom().insert(name@),
            forall|k: Seq<char>| k != name@ && old(self).histograms.map().dom().contains(k)
                ==> #[trigger] final(self).histograms.map()[k] == old(self).histograms.map()[k],
            observations_of(final(self).histograms.map(), name@) == observations_of(old(self).histograms.map(), name@).push(value),
            old(self).histograms.map().dom().contains(name@) ==> final(self).histograms.map()[name@].buckets@
                == old(self).histograms.map()[name@].buckets@,
            !old(self).histograms.map().dom().contains(name@) ==> final(self).histograms.map()[name@].buckets@ == buckets@,
            final(self).counters == old(self).counters,
            final(self).gauges == old(self).gauges,
    {
        let ghost m0 = self.histograms.map();
        let h = self.histogram_mut(name, buckets);
        h.observe(value);
        proof {
            assert(self.histograms.map().dom() =~= m0.dom().insert(name@));
            if !m0.dom().contains(name@) {
                assert(Seq::<u128>::empty().push(value) =~= self.histograms.map()[name@].observations@);
            }
        }
    }

    /// Counts a settled batch overall, per route and per operator, and marks the batch terminal.
    pub fn record_batch_settled(&mut self, batch: &BatchId, route: &RouteId, operator: &OperatorId)
        requires
            old(self).wf(),
        ensures
            final(self).wf(),
            settled_counts(old(self).counters.map(), final(self).counters.map(), route@, operator@),
            final(self).gauges.map().dom() == old(self).gauges.map().dom().insert("batch."@ + batch@ + ".terminal"@),
            gauge_of(final(self).gauges.map(), "batch."@ + batch@ + ".terminal"@) == 1,
            forall|k: Seq<char>| k != "batch."@ + batch@ + ".terminal"@ ==> #[trigger] gauge_of(final(self).gauges.map(), k)
                == gauge_of(old(self).gauges.map(), k),
            final(self).histograms == old(self).histograms,
    {
        let ghost c0 = self.counters.map();
        self.increment_counter("batch.settled", 1);
        let mut route_name = String::new();
        push_str(&mut route_name, "batch.settled.route.");
        push_str(&mut route_name, route.as_str());
        self.increment_counter(route_name.as_str(), 1);
        let mut operator_name = String::new();
        push_str(&mut operator_name, "batch.settled.operator.");
        push_str(&mut operator_name, operator.as_str());
        self.increment_counter(operator_name.as_str(), 1);
        let mut gauge_name = String::new();
        push_str(&mut gauge_name, "batch.");
        push_str(&mut gauge_name, batch.as_str());
        push_str(&mut gauge_name, ".terminal");
        proof {
            assert(route_name@ =~= "batch.settled.route."@ + route@);
            assert(operator_name@ =~= "batch.settled.operator."@ + operator@);
            assert(gauge_name@ =~= "batch."@ + batch@ + ".terminal"@);
        }
        self.set_gauge(gauge_name.as_str(), 1);
        proof {
            let n1 = "batch.settled"@;
            let n2 = "batch.settled.route."@ + route@;
            let n3 = "batch.settled.operator."@ + operator@;
            reveal_strlit("batch.settled");
            reveal_strlit("batch.settled.route.");
            reveal_strlit("batch.settled.operator.");
            assert(n1 != n2) by { assert(n1.len() != n2.len()); }
            assert(n1 != n3) by { assert(n1.len() != n3.len()); }
            assert(n2 != n3) by { assert(n2[14] != n3[14]); }
            let names = set![n1, n2, n3];
            assert(self.counters.map().dom() =~= c0.dom().union(names));
        }
    }

    /// Records a settlement's gross and net outputs, overall and for the route.
    pub fn record_output(&mut self, route: &RouteId, gross: Amount, net: Amount)
        requires
            old(self).wf(),
        ensures
            final(self).wf(),
            output_observed(old(self).histograms.map(), final(self).histograms.map(), route@, gross.0, net.0),
            final(self).counters == old(self).counters,
            final(self).gauges == old(self).gauges,
    {
        let ghost h0 = self.histograms.map();
        self.observe_histogram("settlement.gross", default_bounds(), gross.raw());
        self.observe_histogram("settlement.net", default_bounds(), net.raw());
        let mut name = String::new();
        push_str(&mut name, "route.");
        push_str(&mut name, route.as_str());
        push_str(&mut name, ".gross");
        proof { assert(name@ =~= "route."@ + route@ + ".gross"@); }
        self.observe_histogram(name.as_str(), default_bounds(), gross.raw());
        proof {
            let n1 = "settlement.gross"@;
            let n2 = "settlement.net"@;
            let n3 = "route."@ + route@ + ".gross"@;
            reveal_strlit("settlement.gross");
            reveal_strlit("settlement.net");
            reveal_strlit("route.");
            assert(n1 != n2) by { assert(n1[11] != n2[11]); }
            assert(n1 != n3) by { assert(n1[0] != n3[0]); }
            assert(n2 != n3) by { assert(n2[0] != n3[0]); }
            let names = set![n1, n2, n3];
            assert(self.histograms.map().dom() =~= h0.dom().union(names));
        }
    }

    pub fn record_guarantee_margin(&mut self, operator: &OperatorId, margin: i128)
        requires
            old(self).wf(),
        ensures
            final(self).wf(),
            gauge_of(final(self).gauges.map(), "operator."@ + operator@ + ".guarantee_margin"@) == margin,
            forall|k: Seq<char>| k != "operator."@ + operator@ + ".guarantee_margin"@ ==> #[trigger] gauge_of(
                final(self).gauges.map(), k) == gauge_of(old(self).gauges.map(), k),
            final(self).counters == old(self).counters,
            final(self).histograms == old(self).histograms,
    {
        let mut name = String::new();
        push_str(&mut name, "operator.");
        push_str(&mut name, operator.as_str());
        push_str(&mut name, ".guarantee_margin");
        proof { assert(name@ =~= "operator."@ + operator@ + ".guarantee_margin"@); }
        self.set_gauge(name.as_str(), margin);
    }

    pub fn counter_value(&self, name: &str) -> (r: u128)
        requires
            self.wf(),
        ensures
            r == counter_of(self.counters.map(), name@),
    {
        match self.counters.find(name) {
            Some(i) => {
                proof { lemma_store_map_index(self.counters@, i as int); }
                self.counters.at(i).value
            },
            None => 0,
        }
    }

    pub fn gauge_value(&self, name: &str) -> (r: i128)
        requires
            self.wf(),
        ensures
            r == gauge_of(self.gauges.map(), name@),
    {
        match self.gauges.find(name) {
            Some(i) => {
                proof { lemma_store_map_index(self.gauges@, i as int); }
                self.gauges.at(i).value
            },
            None => 0,
        }
    }

    /// Copies of every counter, gauge and histogram, each kind in name order.
    pub fn snapshot(&self) -> (r: TelemetrySnapshot)
        ensures
            r.counters@ == self.counters@,
            r.gauges@ == self.gauges@,
            r.histograms@.len() == self.histograms@.len(),
            forall|i: int| 0 <= i < r.histograms@.len() ==> (#[trigger] r.histograms@[i]).name == self.histograms@[i].name
                && r.histograms@[i].buckets@ == self.histograms@[i].buckets@
                && r.histograms@[i].observations@ == self.histograms@[i].observations@,
    {
        let mut counters: Vec<Counter> = Vec::new();
        let mut i: usize = 0;
        while i < self.counters.len()
            invariant
                i <= self.counters@.len(),
                counters@ == self.counters@.take(i as int),
            decreases self.counters@.len() - i,
        {
            counters.push(self.counters.at(i).clone());
            proof { assert(self.counters@.take(i + 1) == self.counters@.take(i as int).push(self.counters@[i as int])); }
            i = i + 1;
        }
        let mut gauges: Vec<Gauge> = Vec::new();
        let mut j: usize = 0;
        while j < self.gauges.len()
            invariant
                j <= self.gauges@.len(),
                gauges@ == self.gauges@.take(j as int),
            decreases self.gauges@.len() - j,
        {
            gauges.push(self.gauges.at(j).clone());
            proof { assert(self.gauges@.take(j + 1) == self.gauges@.take(j as int).push(self.gauges@[j as int])); }
            j = j + 1;
        }
        let mut histograms: Vec<Histogram> = Vec::new();
        let mut k: usize = 0;
        while k < self.histograms.len()
            invariant
                k <= self.histograms@.len(),
                histograms@.len() == k,
                forall|m: int| 0 <= m < k ==> (#[trigger] histograms@[m]).name == self.histograms@[m].name
                    && histograms@[m].buckets@ == self.histograms@[m].buckets@
                    && histograms@[m].observations@ == self.histograms@[m].observations@,
            decreases self.histograms@.len() - k,
        {
            histograms.push(self.histograms.at(k).clone());
            k = k + 1;
        }
        proof {
            assert(self.counters@.take(i as int) == self.counters@);
            assert(self.gauges@.take(j as int) == self.gauges@);
        }
        TelemetrySnapshot { counters, gauges, histograms }
    }
}

/// The counters after one settlement: the overall, route and operator counts each went up by one.
pub open spec fn settled_counts(before: Map<Seq<char>, Counter>, after: Map<Seq<char>, Counter>, route: Seq<char>,
    operator: Seq<char>) -> bool {
    let names = set!["batch.settled"@, "batch.settled.route."@ + route, "batch.settled.operator."@ + operator];
    &&& after.dom() == before.dom().union(names)
    &&& forall|k: Seq<char>| !names.contains(k) ==> #[trigger] counter_of(after, k) == counter_of(before, k)
    &&& forall|k: Seq<char>| names.contains(k) ==> #[trigger] counter_of(after, k) == sat(counter_of(before, k) + 1)
}

/// The histograms after one recorded output: gross in the overall and route histograms, net in the
/// overall net histogram.
pub open spec fn output_observed(before: Map<Seq<char>, Histogram>, after: Map<Seq<char>, Histogram>, route: Seq<char>,
    gross: u128, net: u128) -> bool {
    let names = set!["settlement.gross"@, "settlement.net"@, "route."@ + route + ".gross"@];
    &&& after.dom() == before.dom().union(names)
    &&& forall|k: Seq<char>| !names.contains(k) && before.dom().contains(k) ==> #[trigger] after[k] == before[k]
    &&& observations_of(after, "settlement.gross"@) == observations_of(before, "settlement.gross"@).push(gross)
    &&& observations_of(after, "settlement.net"@) == observations_of(before, "settlement.net"@).push(net)
    &&& observations_of(after, "route."@ + route + ".gross"@) == observations_of(before, "route."@ + route + ".gross"@).push(gross)
}

/// Everything the registry held, at one moment.
#[derive(Clone, Debug, PartialEq, Eq)]
pub struct TelemetrySnapshot {
    pub counters: Vec<Counter>,
    pub gauges: Vec<Gauge>,
    pub histograms: Vec<Histogram>,
}

/// Successes against a target share.
#[derive(Clone, Debug, PartialEq, Eq)]
pub struct ServiceLevelWindow {
    pub name: String,
    pub target_bps: BasisPoints,
    pub successful: u128,
    pub total: u128,
}

/// The observed success share in basis points, capped at the whole.
pub open spec fn observed_spec(successful: u128, total: u128) -> u32 {
    if total == 0 {
        0
    } else if sat(successful * 10_000) / (total as int) > 10_000 {
        10_000
    } else {
        (sat(successful * 10_000) / (total as int)) as u32
    }
}

impl ServiceLevelWindow {
    pub fn new(name: &str, target_bps: BasisPoints) -> (r: ServiceLevelWindow)
        ensures
            r.name@ == name@,
            r.target_bps == target_bps,
            r.successful == 0,
            r.total == 0,
    {
        ServiceLevelWindow { name: name.to_owned(), target_bps, successful: 0, total: 0 }
    }

    pub fn record(&mut self, success: bool)
        ensures
            final(self).name == old(self).name,
            final(self).target_bps == old(self).target_bps,
            final(self).total == sat(old(self).total + 1),
            final(self).successful == (if success { sat(old(self).successful + 1) } else { old(self).successful as int }),
    {
        self.total = self.total.saturating_add(1);
        if success {
            self.successful = self.successful.saturating_add(1);
        }
    }

    pub fn observed_bps(&self) -> (r: Result<BasisPoints>)
        ensures
            r == Ok::<BasisPoints, EclipseError>(BasisPoints(observed_spec(self.successful, self.total))),
    {
        if self.total == 0 {
            return Ok(BasisPoints(0));
        }
        let raw = saturating_mul(self.successful, 10_000) / self.total;
        let capped: u128 = if raw > 10_000 { 10_000 } else { raw };
        BasisPoints::new(capped as u32)
    }

    pub fn meets_target(&self) -> (r: Result<bool>)
        ensures
            r == Ok::<bool, EclipseError>(observed_spec(self.successful, self.total) >= self.target_bps.0),
    {
        Ok(self.observed_bps()?.raw() >= self.target_bps.raw())
    }
}

} // verus!
