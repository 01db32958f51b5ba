use crate::error::{EclipseError, Result};
use crate::ids::BatchId;
use crate::store::{lemma_store_map_index, Keyed, KeyedStore};
use crate::text::{compare_str, decimal, lemma_seq_lt_asymmetric, lemma_seq_lt_total, lemma_seq_lt_transitive, push_decimal,
    push_str, seq_lt};
use vstd::prelude::*;

verus! {

/// A point in time, in seconds.
#[derive(Debug, Clone, Copy, PartialEq, Eq, Structural, PartialOrd, Ord, Hash)]
pub struct Timestamp(pub u64);

impl Timestamp {
    pub fn new(value: u64) -> (r: Timestamp)
        ensures
            r.0 == value,
    {
        Timestamp(value)
    }

    pub fn raw(self) -> (r: u64)
        ensures
            r == self.0,
    {
        self.0
    }

    pub fn saturating_add(self, seconds: u64) -> (r: Timestamp)
        ensures
            r.0 == (if self.0 + seconds > u64::MAX { u64::MAX as int } else { self.0 + seconds }),
    {
        Timestamp(self.0.saturating_add(seconds))
    }

    pub fn saturating_sub(self, seconds: u64) -> (r: Timestamp)
        ensures
            r.0 == (if seconds > self.0 { 0 } else { self.0 - seconds }),
    {
        Timestamp(self.0.saturating_sub(seconds))
    }
}

/// A closed interval of time.
#[derive(Debug, Clone, Copy, PartialEq, Eq, Structural)]
pub struct TimeWindow {
    pub start: Timestamp,
    pub end: Timestamp,
}

/// The message that refuses a window which ends before it starts.
pub open spec fn window_message(start: u64, end: u64) -> Seq<char> {
    "invalid time window "@ + decimal(start as nat) + ">"@ + decimal(end as nat)
}

pub open spec fn windows_overlap(a: TimeWindow, b: TimeWindow) -> bool {
    a.start.0 <= b.end.0 && b.start.0 <= a.end.0
}

impl TimeWindow {
    pub fn new(start: Timestamp, end: Timestamp) -> (r: Result<TimeWindow>)
        ensures
            start.0 <= end.0 ==> r == Ok::<TimeWindow, EclipseError>(TimeWindow { start, end }),
            end.0 < start.0 ==> (r matches Err(EclipseError::InvalidScenario(m)) && m@ == window_message(start.0, end.0)),
    {
        if end.0 < start.0 {
            let mut m = String::new();
            push_str(&mut m, "invalid time window ");
            push_decimal(&mut m, start.0 as u128);
            push_str(&mut m, ">");
            push_decimal(&mut m, end.0 as u128);
            return Err(EclipseError::InvalidScenario(m));
        }
        Ok(TimeWindow { start, end })
    }

    pub fn contains(&self, timestamp: Timestamp) -> (r: bool)
        ensures
            r == (self.start.0 <= timestamp.0 <= self.end.0),
    {
        timestamp.0 >= self.start.0 && timestamp.0 <= self.end.0
    }

    pub fn overlaps(&self, other: &TimeWindow) -> (r: bool)
        ensures
            r == windows_overlap(*self, *other),
    {
        self.start.0 <= other.end.0 && other.start.0 <= self.end.0
    }

    pub fn duration(&self) -> (r: u64)
        ensures
            r == (if self.start.0 > self.end.0 { 0 } else { self.end.0 - self.start.0 }),
    {
        self.end.0.saturating_sub(self.start.0)
    }

    pub fn expand(&self, seconds: u64) -> (r: TimeWindow)
        ensures
            r.start.0 == (if seconds > self.start.0 { 0 } else { self.start.0 - seconds }),
            r.end.0 == (if self.end.0 + seconds > u64::MAX { u64::MAX as int } else { self.end.0 + seconds }),
    {
        TimeWindow { start: self.start.saturating_sub(seconds), end: self.end.saturating_add(seconds) }
    }
}

/// Overlap is symmetric, and a window overlaps itself when it is not empty.
pub proof fn law_overlap_symmetric(a: TimeWindow, b: TimeWindow)
    ensures
        windows_overlap(a, b) == windows_overlap(b, a),
        a.start.0 <= a.end.0 ==> windows_overlap(a, a),
{
}

/// Expanding a window keeps every moment it contained.
pub proof fn law_expand_contains(w: TimeWindow, seconds: u64, t: u64)
    requires
        w.start.0 <= t <= w.end.0,
    ensures
        (if seconds > w.start.0 { 0 } else { w.start.0 - seconds }) <= t,
        t <= (if w.end.0 + seconds > u64::MAX { u64::MAX as int } else { w.end.0 + seconds }),
{
}

#[derive(Debug, Clone, Copy, PartialEq, Eq, Structural)]
pub enum BatchPriority {
    Low,
    Normal,
    High,
    Critical,
}

pub open spec fn priority_weight(p: BatchPriority) -> u32 {
    match p {
        BatchPriority::Low => 10,
        BatchPriority::Normal => 50,
        BatchPriority::High => 80,
        BatchPriority::Critical => 100,
    }
}

impl BatchPriority {
    pub fn weight(&self) -> (r: u32)
        ensures
            r == priority_weight(*self),
    {
        match self {
            BatchPriority::Low => 10,
            BatchPriority::Normal => 50,
            BatchPriority::High => 80,
            BatchPriority::Critical => 100,
        }
    }
}

/// A batch waiting for its window.
#[derive(Debug, PartialEq, Eq)]
pub struct ScheduledBatch {
    pub batch: BatchId,
    pub window: TimeWindow,
    pub priority: BatchPriority,
    pub sequence: u64,
}

impl Clone for ScheduledBatch {
    fn clone(&self) -> (r: Self)
        ensures
            r == *self,
    {
        ScheduledBatch { batch: self.batch.clone(), ..*self }
    }
}

impl Keyed for ScheduledBatch {
    open spec fn key(&self) -> Seq<char> {
        self.batch@
    }

    fn key_str(&self) -> (r: &str) {
        self.batch.as_str()
    }
}

/// `a` comes no later than `b` in schedule order: higher weight first, then lower sequence, then
/// smaller batch id.
pub open spec fn sched_le(a: ScheduledBatch, b: ScheduledBatch) -> bool {
    ||| priority_weight(a.priority) > priority_weight(b.priority)
    ||| priority_weight(a.priority) == priority_weight(b.priority) && a.sequence < b.sequence
    ||| priority_weight(a.priority) == priority_weight(b.priority) && a.sequence == b.sequence
        && (a.batch@ == b.batch@ || seq_lt(a.batch@, b.batch@))
}

/// Schedule order is total and transitive.
pub proof fn lemma_sched_le_order(a: ScheduledBatch, b: ScheduledBatch, c: ScheduledBatch)
    ensures
        sched_le(a, b) || sched_le(b, a),
        sched_le(a, b) && sched_le(b, c) ==> sched_le(a, c),
        sched_le(a, b) && sched_le(b, a) ==> a.batch@ == b.batch@,
{
    lemma_seq_lt_total(a.batch@, b.batch@);
    if seq_lt(a.batch@, b.batch@) {
        lemma_seq_lt_asymmetric(a.batch@, b.batch@);
    }
    if sched_le(a, b) && sched_le(b, c) && seq_lt(a.batch@, b.batch@) && seq_lt(b.batch@, c.batch@) {
        lemma_seq_lt_transitive(a.batch@, b.batch@, c.batch@);
    }
}

impl ScheduledBatch {
    pub fn new(batch: BatchId, window: TimeWindow, priority: BatchPriority, sequence: u64) -> (r: ScheduledBatch)
        ensures
            r == (ScheduledBatch { batch, window, priority, sequence }),
    {
        ScheduledBatch { batch, window, priority, sequence }
    }

    pub fn is_live(&self, timestamp: Timestamp) -> (r: bool)
        ensures
            r == (self.window.start.0 <= timestamp.0 <= self.window.end.0),
    {
        self.window.contains(timestamp)
    }

    /// The schedule-order key: the weight's distance below `u32::MAX`, the sequence and the batch id,
    /// which sorts ascending as the schedule runs.
    pub fn sort_key(&self) -> (r: (u32, u64, BatchId))
        ensures
            r.0 == u32::MAX - priority_weight(self.priority),
            r.1 == self.sequence,
            r.2 == self.batch,
    {
        (u32::MAX - self.priority.weight(), self.sequence, self.batch.clone())
    }

    fn sched_le_exec(a: &ScheduledBatch, b: &ScheduledBatch) -> (r: bool)
        ensures
            r == sched_le(*a, *b),
    {
        let wa = a.priority.weight();
        let wb = b.priority.weight();
        wa > wb || (wa == wb && a.sequence < b.sequence)
            || (wa == wb && a.sequence == b.sequence && compare_str(a.batch.as_str(), b.batch.as_str()) <= 0)
    }
}

/// Inserts `x` after every entry that comes no later than it.
pub open spec fn insert_sched(s: Seq<ScheduledBatch>, x: ScheduledBatch) -> Seq<ScheduledBatch>
    decreases s.len(),
{
    if s.len() == 0 {
        seq![x]
    } else if sched_le(s.last(), x) {
        s.push(x)
    } else {
        insert_sched(s.drop_last(), x).push(s.last())
    }
}

/// The entries in schedule order.
pub open spec fn sort_sched(s: Seq<ScheduledBatch>) -> Seq<ScheduledBatch>
    decreases s.len(),
{
    if s.len() == 0 { s } else { insert_sched(sort_sched(s.drop_last()), s.last()) }
}

pub open spec fn sorted_sched(s: Seq<ScheduledBatch>) -> bool {
    forall|i: int, j: int| 0 <= i < j < s.len() ==> sched_le(#[trigger] s[i], #[trigger] s[j])
}

proof fn lemma_insert_sched_sorted(s: Seq<ScheduledBatch>, x: ScheduledBatch)
    requires
        sorted_sched(s),
    ensures
        sorted_sched(insert_sched(s, x)),
        insert_sched(s, x).to_multiset() == s.to_multiset().insert(x),
    decreases s.len(),
{
    broadcast use vstd::seq_lib::group_to_multiset_ensures, vstd::multiset::group_multiset_axioms;
    if s.len() == 0 {
        assert(seq![x] == s.push(x));
    } else if sched_le(s.last(), x) {
        assert forall|i: int, j: int| 0 <= i < j < s.len() + 1 implies sched_le(#[trigger] s.push(x)[i], #[trigger] s.push(x)[j]) by {
            if j == s.len() {
                if i < s.len() - 1 {
                    lemma_sched_le_order(s[i], s[s.len() - 1], x);
                }
            }
        }
    } else {
        let d = s.drop_last();
        let t = insert_sched(d, x);
        lemma_insert_sched_sorted(d, x);
        lemma_sched_le_order(s.last(), x, x);
        assert(s == d.push(s.last()));
        assert forall|k: int| 0 <= k < t.len() implies sched_le(#[trigger] t[k], s.last()) by {
            assert(t.contains(t[k]));
            assert(t.to_multiset().count(t[k]) > 0);
            if t[k] != x {
                assert(d.to_multiset().count(t[k]) > 0);
                assert(d.contains(t[k]));
                let m = choose|m: int| 0 <= m < d.len() && d[m] == t[k];
                assert(s[m] == t[k]);
                assert(s[s.len() - 1] == s.last());
            }
        }
        assert(t.push(s.last()).to_multiset() =~= s.to_multiset().insert(x));
    }
}

/// Schedule order gives a sorted rearrangement of the same entries.
pub proof fn law_sort_sched_sorted_permutation(s: Seq<ScheduledBatch>)
    ensures
        sorted_sched(sort_sched(s)),
        sort_sched(s).to_multiset() == s.to_multiset(),
    decreases s.len(),
{
    broadcast use vstd::seq_lib::group_to_multiset_ensures;
    if s.len() > 0 {
        law_sort_sched_sorted_permutation(s.drop_last());
        lemma_insert_sched_sorted(sort_sched(s.drop_last()), s.last());
        assert(s == s.drop_last().push(s.last()));
    }
}

proof fn lemma_insert_sched_position(s: Seq<ScheduledBatch>, x: ScheduledBatch, p: int)
    requires
        0 <= p <= s.len(),
        forall|j: int| p <= j < s.len() ==> !sched_le(#[trigger] s[j], x),
        p == 0 || sched_le(s[p - 1], x),
    ensures
        insert_sched(s, x) == s.insert(p, x),
    decreases s.len(),
{
    if s.len() == 0 {
        assert(s.insert(p, x) =~= seq![x]);
    } else if sched_le(s.last(), x) {
        if p < s.len() {
            assert(!sched_le(s[s.len() - 1], x));
        }
        assert(s.insert(p, x) =~= s.push(x));
    } else {
        let d = s.drop_last();
        assert(p < s.len());
        lemma_insert_sched_position(d, x, p);
        assert(d.insert(p, x).push(s.last()) =~= s.insert(p, x));
    }
}

/// The entries live at `t`, in key order.
pub open spec fn live_entries(s: Seq<ScheduledBatch>, t: u64) -> Seq<ScheduledBatch>
    decreases s.len(),
{
    if s.len() == 0 {
        Seq::empty()
    } else if s.last().window.start.0 <= t <= s.last().window.end.0 {
        live_entries(s.drop_last(), t).push(s.last())
    } else {
        live_entries(s.drop_last(), t)
    }
}

/// The entries whose window has started by `t`, in key order.
pub open spec fn started_entries(s: Seq<ScheduledBatch>, t: u64) -> Seq<ScheduledBatch>
    decreases s.len(),
{
    if s.len() == 0 {
        Seq::empty()
    } else if s.last().window.start.0 <= t {
        started_entries(s.drop_last(), t).push(s.last())
    } else {
        started_entries(s.drop_last(), t)
    }
}

/// Puts references in schedule order.
fn sort_refs<'a>(items: Vec<&'a ScheduledBatch>) -> (r: Vec<&'a ScheduledBatch>)
    ensures
        r@.len() == sort_sched(refs_view(items@)).len(),
        forall|i: int| 0 <= i < r@.len() ==> *#[trigger] r@[i] == sort_sched(refs_view(items@))[i],
{
    let ghost c = refs_view(items@);
    let mut out: Vec<&ScheduledBatch> = Vec::new();
    let ghost mut g: Seq<ScheduledBatch> = Seq::empty();
    let mut i: usize = 0;
    while i < items.len()
        invariant
            c == refs_view(items@),
            i <= c.len(),
            g == sort_sched(c.take(i as int)),
            out@.len() == g.len(),
            forall|j: int| 0 <= j < out@.len() ==> *#[trigger] out@[j] == g[j],
        decreases c.len() - i,
    {
        proof { assert(c.take(i + 1).drop_last() == c.take(i as int)); }
        let x = items[i];
        let mut p: usize = out.len();
        while p > 0 && !ScheduledBatch::sched_le_exec(out[p - 1], x)
            invariant
                p <= out@.len(),
                out@.len() == g.len(),
                forall|j: int| 0 <= j < out@.len() ==> *#[trigger] out@[j] == g[j],
                forall|j: int| p <= j < g.len() ==> !sched_le(#[trigger] g[j], *x),
            decreases p,
        {
            p = p - 1;
        }
        proof { lemma_insert_sched_position(g, *x, p as int); }
        out.insert(p, x);
        proof { g = g.insert(p as int, *x); }
        i = i + 1;
    }
    proof { assert(c.take(i as int) == c); }
    out
}

/// The values behind a sequence of references.
pub open spec fn refs_view(s: Seq<&ScheduledBatch>) -> Seq<ScheduledBatch> {
    s.map_values(|x: &ScheduledBatch| *x)
}

/// The batches waiting for their windows, with the next sequence number to give out.
#[derive(Clone, Debug)]
pub struct BatchScheduler {
    pub scheduled: KeyedStore<ScheduledBatch>,
    pub next_sequence: u64,
}

impl Default for BatchScheduler {
    fn default() -> (r: BatchScheduler)
        ensures
            r.wf(),
            r.scheduled@ == Seq::<ScheduledBatch>::empty(),
            r.next_sequence == 0,
    {
        BatchScheduler { scheduled: KeyedStore::new(), next_sequence: 0 }
    }
}

impl BatchScheduler {
    pub open spec fn wf(&self) -> bool {
        self.scheduled.wf()
    }

    pub open spec fn map(&self) -> Map<Seq<char>, ScheduledBatch> {
        self.scheduled.map()
    }

    pub fn new() -> (r: BatchScheduler)
        ensures
            r.wf(),
            r.scheduled@ == Seq::<ScheduledBatch>::empty(),
            r.next_sequence == 1,
    {
        BatchScheduler { scheduled: KeyedStore::new(), next_sequence: 1 }
    }

    /// Schedules a new batch with the next sequence number.
    pub fn schedule(&mut self, batch: BatchId, window: TimeWindow, priority: BatchPriority) -> (r: Result<()>)
        requires
            old(self).wf(),
        ensures
            final(self).wf(),
            old(self).map().dom().contains(batch@) ==> r == Err::<(), EclipseError>(EclipseError::DuplicateId(batch.0))
                && final(self).scheduled@ == old(self).scheduled@ && final(self).next_sequence == old(self).next_sequence,
            !old(self).map().dom().contains(batch@) ==> r is Ok
                && final(self).map() == old(self).map().insert(batch@,
                    ScheduledBatch { batch, window, priority, sequence: old(self).next_sequence })
                && final(self).next_sequence == (if old(self).next_sequence == u64::MAX { u64::MAX } else {
                    (old(self).next_sequence + 1) as u64 }),
    {
        if self.scheduled.find(batch.as_str()).is_some() {
            return Err(EclipseError::DuplicateId(batch.0.clone()));
        }
        let sequence = self.next_sequence;
        self.next_sequence = self.next_sequence.saturating_add(1);
        let _ = self.scheduled.insert_new(ScheduledBatch::new(batch, window, priority, sequence));
        Ok(())
    }

    pub fn remove(&mut self, batch: &BatchId) -> (r: Option<ScheduledBatch>)
        requires
            old(self).wf(),
        ensures
            final(self).wf(),
            final(self).next_sequence == old(self).next_sequence,
            old(self).map().dom().contains(batch@) ==> r == Some(old(self).map()[batch@])
                && final(self).map() == old(self).map().remove(batch@),
            !old(self).map().dom().contains(batch@) ==> r is None && final(self).scheduled@ == old(self).scheduled@,
    {
        match self.scheduled.find(batch.as_str()) {
            Some(i) => {
                proof { lemma_store_map_index(self.scheduled@, i as int); }
                Some(self.scheduled.remove_at(i))
            },
            None => None,
        }
    }

    pub fn get(&self, batch: &BatchId) -> (r: Option<&ScheduledBatch>)
        requires
            self.wf(),
        ensures
            self.map().dom().contains(batch@) ==> r is Some && *r->Some_0 == self.map()[batch@],
            !self.map().dom().contains(batch@) ==> r is None,
    {
        match self.scheduled.find(batch.as_str()) {
            Some(i) => {
                proof { lemma_store_map_index(self.scheduled@, i as int); }
                Some(self.scheduled.at(i))
            },
            None => None,
        }
    }

    /// The batches whose window contains `timestamp`, in schedule order.
    pub fn live_at(&self, timestamp: Timestamp) -> (r: Vec<&ScheduledBatch>)
        ensures
            r@.len() == sort_sched(live_entries(self.scheduled@, timestamp.0)).len(),
            forall|i: int| 0 <= i < r@.len() ==> *#[trigger] r@[i] == sort_sched(live_entries(self.scheduled@, timestamp.0))[i],
    {
        let mut live: Vec<&ScheduledBatch> = Vec::new();
        let mut i: usize = 0;
        while i < self.scheduled.len()
            invariant
                i <= self.scheduled@.len(),
                refs_view(live@) == live_entries(self.scheduled@.take(i as int), timestamp.0),
            decreases self.scheduled@.len() - i,
        {
            proof { assert(self.scheduled@.take(i + 1).drop_last() == self.scheduled@.take(i as int)); }
            let s = self.scheduled.at(i);
            if s.is_live(timestamp) {
                live.push(s);
            }
            proof { assert(refs_view(live@) =~= live_entries(self.scheduled@.take(i + 1), timestamp.0)); }
            i = i + 1;
        }
        proof { assert(self.scheduled@.take(i as int) == self.scheduled@); }
        sort_refs(live)
    }

    /// The first live batch in schedule order.
    pub fn next_ready(&self, timestamp: Timestamp) -> (r: Option<&ScheduledBatch>)
        ensures
            sort_sched(live_entries(self.scheduled@, timestamp.0)).len() == 0 ==> r is None,
            sort_sched(live_entries(self.scheduled@, timestamp.0)).len() > 0
                ==> r is Some && *r->Some_0 == sort_sched(live_entries(self.scheduled@, timestamp.0))[0],
    {
        let live = self.live_at(timestamp);
        if live.len() == 0 {
            None
        } else {
            Some(live[0])
        }
    }

    /// The batches whose window has started by `timestamp`, in schedule order.
    pub fn pending_before(&self, timestamp: Timestamp) -> (r: Vec<&ScheduledBatch>)
        ensures
            r@.len() == sort_sched(started_entries(self.scheduled@, timestamp.0)).len(),
            forall|i: int| 0 <= i < r@.len() ==> *#[trigger] r@[i] == sort_sched(started_entries(self.scheduled@, timestamp.0))[i],
    {
        let mut pending: Vec<&ScheduledBatch> = Vec::new();
        let mut i: usize = 0;
        while i < self.scheduled.len()
            invariant
                i <= self.scheduled@.len(),
                refs_view(pending@) == started_entries(self.scheduled@.take(i as int), timestamp.0),
            decreases self.scheduled@.len() - i,
        {
            proof { assert(self.scheduled@.take(i + 1).drop_last() == self.scheduled@.take(i as int)); }
            let s = self.scheduled.at(i);
            if s.window.start.0 <= timestamp.0 {
                pending.push(s);
            }
            proof { assert(refs_view(pending@) =~= started_entries(self.scheduled@.take(i + 1), timestamp.0)); }
            i = i + 1;
        }
        proof { assert(self.scheduled@.take(i as int) == self.scheduled@); }
        sort_refs(pending)
    }

    pub fn count(&self) -> (r: usize)
        ensures
            r == self.scheduled@.len(),
    {
        self.scheduled.len()
    }

    pub fn is_empty(&self) -> (r: bool)
        ensures
            r == (self.scheduled@.len() == 0),
    {
        self.scheduled.len() == 0
    }
}

/// A numbered period that takes a limited number of batches.
#[derive(Debug, Clone, Copy, PartialEq, Eq, Structural)]
pub struct Epoch {
    pub index: u64,
    pub window: TimeWindow,
    pub max_batches: usize,
}

impl Epoch {
    pub fn new(index: u64, window: TimeWindow, max_batches: usize) -> (r: Epoch)
        ensures
            r == (Epoch { index, window, max_batches }),
    {
        Epoch { index, window, max_batches }
    }

    pub fn contains(&self, timestamp: Timestamp) -> (r: bool)
        ensures
            r == (self.window.start.0 <= timestamp.0 <= self.window.end.0),
    {
        self.window.contains(timestamp)
    }

    pub fn has_capacity(&self, count: usize) -> (r: bool)
        ensures
            r == (count < self.max_batches),
    {
        count < self.max_batches
    }
}

/// Inserts `x` after every epoch whose index does not exceed its own.
pub open spec fn insert_epoch(s: Seq<Epoch>, x: Epoch) -> Seq<Epoch>
    decreases s.len(),
{
    if s.len() == 0 {
        seq![x]
    } else if s.last().index <= x.index {
        s.push(x)
    } else {
        insert_epoch(s.drop_last(), x).push(s.last())
    }
}

pub open spec fn sorted_by_index(s: Seq<Epoch>) -> bool {
    forall|i: int, j: int| 0 <= i < j < s.len() ==> (#[trigger] s[i]).index <= (#[trigger] s[j]).index
}

proof fn lemma_insert_epoch(s: Seq<Epoch>, x: Epoch, p: int)
    requires
        sorted_by_index(s),
        0 <= p <= s.len(),
        forall|j: int| p <= j < s.len() ==> (#[trigger] s[j]).index > x.index,
        p == 0 || s[p - 1].index <= x.index,
    ensures
        insert_epoch(s, x) == s.insert(p, x),
        sorted_by_index(s.insert(p, x)),
    decreases s.len(),
{
    if s.len() == 0 {
        assert(s.insert(p, x) =~= seq![x]);
    } else if s.last().index <= x.index {
        if p < s.len() {
            assert(s[s.len() - 1].index > x.index);
        }
        assert(s.insert(p, x) =~= s.push(x));
    } else {
        let d = s.drop_last();
        assert(p < s.len());
        lemma_insert_epoch(d, x, p);
        assert(d.insert(p, x).push(s.last()) =~= s.insert(p, x));
    }
    let t = s.insert(p, x);
    assert forall|i: int, j: int| 0 <= i < j < t.len() implies (#[trigger] t[i]).index <= (#[trigger] t[j]).index by {
        if i < p && j > p {
            assert(s[i].index <= s[p - 1].index);
        }
    }
}

/// The message that refuses an epoch overlapping another.
pub open spec fn overlap_message(new_index: u64, existing_index: u64) -> Seq<char> {
    "epoch "@ + decimal(new_index as nat) + " overlaps epoch "@ + decimal(existing_index as nat)
}

/// The first epoch, in index order, whose window overlaps `w`.
pub open spec fn first_overlap(s: Seq<Epoch>, w: TimeWindow, i: int) -> bool {
    &&& 0 <= i < s.len()
    &&& windows_overlap(s[i].window, w)
    &&& forall|j: int| 0 <= j < i ==> !windows_overlap(#[trigger] s[j].window, w)
}

/// No two epochs of `s` have overlapping windows.
pub open spec fn disjoint_windows(s: Seq<Epoch>) -> bool {
    forall|i: int, j: int| 0 <= i < s.len() && 0 <= j < s.len() && i != j
        ==> !windows_overlap(#[trigger] s[i].window, #[trigger] s[j].window)
}

/// Inserting an epoch that overlaps none of a disjoint sequence keeps it disjoint.
proof fn lemma_insert_disjoint(s: Seq<Epoch>, x: Epoch, p: int)
    requires
        disjoint_windows(s),
        0 <= p <= s.len(),
        forall|i: int| 0 <= i < s.len() ==> !windows_overlap(#[trigger] s[i].window, x.window),
    ensures
        disjoint_windows(s.insert(p, x)),
{
    let t = s.insert(p, x);
    assert forall|i: int, j: int| 0 <= i < t.len() && 0 <= j < t.len() && i != j
        implies !windows_overlap(#[trigger] t[i].window, #[trigger] t[j].window) by {
        let si = if i < p { i } else { i - 1 };
        let sj = if j < p { j } else { j - 1 };
        if i == p {
            assert(t[j] == s[sj]);
            assert(!windows_overlap(s[sj].window, x.window));
        } else if j == p {
            assert(t[i] == s[si]);
            assert(!windows_overlap(s[si].window, x.window));
        } else {
            assert(t[i] == s[si] && t[j] == s[sj] && si != sj);
        }
    }
}

/// The epochs, in index order, none overlapping another.
#[derive(Clone, Debug)]
pub struct EpochCalendar {
    pub epochs: Vec<Epoch>,
}

impl Default for EpochCalendar {
    fn default() -> (r: EpochCalendar)
        ensures
            r.wf(),
            r.epochs@ == Seq::<Epoch>::empty(),
    {
        EpochCalendar::new()
    }
}

impl EpochCalendar {
    pub open spec fn wf(&self) -> bool {
        &&& sorted_by_index(self.epochs@)
        &&& disjoint_windows(self.epochs@)
    }

    pub fn new() -> (r: EpochCalendar)
        ensures
            r.wf(),
            r.epochs@ == Seq::<Epoch>::empty(),
    {
        EpochCalendar { epochs: Vec::new() }
    }

    /// Adds an epoch that overlaps none of the others, keeping index order.
    pub fn add_epoch(&mut self, epoch: Epoch) -> (r: Result<()>)
        requires
            old(self).wf(),
        ensures
            final(self).wf(),
            forall|i: int| #![trigger old(self).epochs@[i]] first_overlap(old(self).epochs@, epoch.window, i)
                ==> final(self).epochs@ == old(self).epochs@
                && (r matches Err(EclipseError::InvalidScenario(m))
                    && m@ == overlap_message(epoch.index, old(self).epochs@[i].index)),
            (forall|i: int| 0 <= i < old(self).epochs@.len() ==> !windows_overlap(#[trigger] old(self).epochs@[i].window, epoch.window))
                ==> r is Ok && final(self).epochs@ == insert_epoch(old(self).epochs@, epoch),
    {
        let mut i: usize = 0;
        while i < self.epochs.len()
            invariant
                i <= self.epochs@.len(),
                self.epochs@ == old(self).epochs@,
                old(self).wf(),
                forall|j: int| 0 <= j < i ==> !windows_overlap(#[trigger] self.epochs@[j].window, epoch.window),
            decreases self.epochs@.len() - i,
        {
            if self.epochs[i].window.overlaps(&epoch.window) {
                let mut m = String::new();
                push_str(&mut m, "epoch ");
                push_decimal(&mut m, epoch.index as u128);
                push_str(&mut m, " overlaps epoch ");
                push_decimal(&mut m, self.epochs[i].index as u128);
                proof {
                    assert(first_overlap(self.epochs@, epoch.window, i as int));
                    assert forall|k: int| #[trigger] first_overlap(self.epochs@, epoch.window, k) implies k == i by {
                        if k > i { assert(windows_overlap(self.epochs@[i as int].window, epoch.window)); }
                    }
                }
                return Err(EclipseError::InvalidScenario(m));
            }
            i = i + 1;
        }
        let mut p: usize = self.epochs.len();
        while p > 0 && self.epochs[p - 1].index > epoch.index
            invariant
                p <= self.epochs@.len(),
                self.epochs@ == old(self).epochs@,
                old(self).wf(),
                forall|j: int| p <= j < self.epochs@.len() ==> (#[trigger] self.epochs@[j]).index > epoch.index,
            decreases p,
        {
            p = p - 1;
        }
        proof {
            lemma_insert_epoch(self.epochs@, epoch, p as int);
            lemma_insert_disjoint(self.epochs@, epoch, p as int);
        }
        self.epochs.insert(p, epoch);
        Ok(())
    }

    /// The first epoch, in index order, that contains `timestamp`.
    pub fn epoch_at(&self, timestamp: Timestamp) -> (r: Option<&Epoch>)
        ensures
            r is None ==> forall|i: int| 0 <= i < self.epochs@.len()
                ==> !(#[trigger] self.epochs@[i].window.start.0 <= timestamp.0 <= self.epochs@[i].window.end.0),
            r is Some ==> exists|i: int| 0 <= i < self.epochs@.len() && *r->Some_0 == #[trigger] self.epochs@[i]
                && self.epochs@[i].window.start.0 <= timestamp.0 <= self.epochs@[i].window.end.0
                && forall|j: int| 0 <= j < i ==> !(#[trigger] self.epochs@[j].window.start.0 <= timestamp.0
                    <= self.epochs@[j].window.end.0),
    {
        let mut i: usize = 0;
        while i < self.epochs.len()
            invariant
                i <= self.epochs@.len(),
                forall|j: int| 0 <= j < i ==> !(#[trigger] self.epochs@[j].window.start.0 <= timestamp.0
                    <= self.epochs@[j].window.end.0),
            decreases self.epochs@.len() - i,
        {
            if self.epochs[i].contains(timestamp) {
                return Some(&self.epochs[i]);
            }
            i = i + 1;
        }
        None
    }

    /// The epoch that starts soonest after `timestamp`, the first in index order among equals.
    pub fn next_epoch_after(&self, timestamp: Timestamp) -> (r: Option<&Epoch>)
        ensures
            r is None ==> forall|i: int| 0 <= i < self.epochs@.len() ==> (#[trigger] self.epochs@[i]).window.start.0 <= timestamp.0,
            r is Some ==> exists|i: int| 0 <= i < self.epochs@.len() && *r->Some_0 == #[trigger] self.epochs@[i]
                && self.epochs@[i].window.start.0 > timestamp.0
                && (forall|j: int| 0 <= j < i && (#[trigger] self.epochs@[j]).window.start.0 > timestamp.0
                    ==> self.epochs@[j].window.start.0 > self.epochs@[i].window.start.0)
                && (forall|j: int| i < j < self.epochs@.len() && (#[trigger] self.epochs@[j]).window.start.0 > timestamp.0
                    ==> self.epochs@[j].window.start.0 >= self.epochs@[i].window.start.0),
    {
        let mut best: Option<usize> = None;
        let mut i: usize = 0;
        while i < self.epochs.len()
            invariant
                i <= self.epochs@.len(),
                best is None ==> forall|j: int| 0 <= j < i ==> (#[trigger] self.epochs@[j]).window.start.0 <= timestamp.0,
                best is Some ==> {
                    let b = best->Some_0 as int;
                    &&& b < i
                    &&& self.epochs@[b].window.start.0 > timestamp.0
                    &&& forall|j: int| 0 <= j < b && (#[trigger] self.epochs@[j]).window.start.0 > timestamp.0
                        ==> self.epochs@[j].window.start.0 > self.epochs@[b].window.start.0
                    &&& forall|j: int| b < j < i && (#[trigger] self.epochs@[j]).window.start.0 > timestamp.0
                        ==> self.epochs@[j].window.start.0 >= self.epochs@[b].window.start.0
                },
            decreases self.epochs@.len() - i,
        {
            if self.epochs[i].window.start.0 > timestamp.0 {
                match best {
                    None => best = Some(i),
                    Some(b) => {
                        if self.epochs[i].window.start.0 < self.epochs[b].window.start.0 {
                            best = Some(i);
                        }
                    },
                }
            }
            i = i + 1;
        }
        match best {
            Some(b) => Some(&self.epochs[b]),
            None => None,
        }
    }

    pub fn len(&self) -> (r: usize)
        ensures
            r == self.epochs@.len(),
    {
        self.epochs.len()
    }

    pub fn is_empty(&self) -> (r: bool)
        ensures
            r == (self.epochs@.len() == 0),
    {
        self.epochs.len() == 0
    }
}

/// A batch's soft and hard deadlines.
#[derive(Clone, Debug, PartialEq, Eq)]
pub struct BatchDeadline {
    pub batch: BatchId,
    pub soft_deadline: Timestamp,
    pub hard_deadline: Timestamp,
}

#[derive(Debug, Clone, Copy, PartialEq, Eq, Structural)]
pub enum DeadlineState {
    Open,
    SoftExpired,
    HardExpired,
}

pub open spec fn deadline_state(d: BatchDeadline, t: u64) -> DeadlineState {
    if t <= d.soft_deadline.0 {
        DeadlineState::Open
    } else if t <= d.hard_deadline.0 {
        DeadlineState::SoftExpired
    } else {
        DeadlineState::HardExpired
    }
}

impl BatchDeadline {
    pub fn new(batch: BatchId, soft_deadline: Timestamp, hard_deadline: Timestamp) -> (r: Result<BatchDeadline>)
        ensures
            soft_deadline.0 <= hard_deadline.0 ==> r == Ok::<BatchDeadline, EclipseError>(BatchDeadline { batch, soft_deadline, hard_deadline }),
            hard_deadline.0 < soft_deadline.0 ==> (r matches Err(EclipseError::InvalidScenario(m))
                && m@ == "deadline order for "@ + batch@),
    {
        if hard_deadline.0 < soft_deadline.0 {
            let mut m = String::new();
            push_str(&mut m, "deadline order for ");
            push_str(&mut m, batch.as_str());
            return Err(EclipseError::InvalidScenario(m));
        }
        Ok(BatchDeadline { batch, soft_deadline, hard_deadline })
    }

    pub fn state_at(&self, timestamp: Timestamp) -> (r: DeadlineState)
        ensures
            r == deadline_state(*self, timestamp.0),
    {
        if timestamp.0 <= self.soft_deadline.0 {
            DeadlineState::Open
        } else if timestamp.0 <= self.hard_deadline.0 {
            DeadlineState::SoftExpired
        } else {
            DeadlineState::HardExpired
        }
    }
}

/// With ordered deadlines the state only moves forward as time passes.
pub proof fn law_deadline_state_monotone(d: BatchDeadline, t1: u64, t2: u64)
    requires
        d.soft_deadline.0 <= d.hard_deadline.0,
        t1 <= t2,
    ensures
        deadline_state(d, t1) == DeadlineState::HardExpired ==> deadline_state(d, t2) == DeadlineState::HardExpired,
        deadline_state(d, t2) == DeadlineState::Open ==> deadline_state(d, t1) == DeadlineState::Open,
{
}

} // verus!
