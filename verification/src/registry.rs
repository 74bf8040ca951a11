//! In-memory registry of call metrics.
//!
//! For each (handler name, outcome) pair the registry keeps a call counter, a
//! sum of durations, and a small fixed set of duration buckets. Counters
//! saturate at `u64::MAX` instead of overflowing, so they never decrease.

use vstd::prelude::*;

use crate::outcome::Outcome;

verus! {

/// How many duration buckets each metric keeps. The first buckets hold calls
/// that took at most 10, 100, 1000 and 10000 milliseconds; the last holds
/// everything slower.
pub const BUCKET_COUNT: usize = 5;

/// Saturating addition on the mathematical values of two `u64` counters.
pub open spec fn sat_add(a: nat, b: nat) -> nat {
    if a + b <= u64::MAX {
        a + b
    } else {
        u64::MAX as nat
    }
}

/// Which bucket a call of `d` milliseconds falls into.
pub open spec fn bucket_index(d: nat) -> int {
    if d <= 10 {
        0
    } else if d <= 100 {
        1
    } else if d <= 1000 {
        2
    } else if d <= 10000 {
        3
    } else {
        4
    }
}

/// The mathematical content of one metric entry.
pub ghost struct MetricView {
    pub name: Seq<char>,
    pub outcome: Outcome,
    pub count: nat,
    pub sum_ms: nat,
    pub buckets: Seq<nat>,
}

/// Does entry `m` aggregate calls of this handler name and outcome?
pub open spec fn key_matches(m: MetricView, name: Seq<char>, outcome: Outcome) -> bool {
    m.name == name && m.outcome == outcome
}

/// The entry created by the first sample for a key.
pub open spec fn fresh_metric(name: Seq<char>, outcome: Outcome, d: nat) -> MetricView {
    MetricView {
        name,
        outcome,
        count: 1,
        sum_ms: d,
        buckets: Seq::new(BUCKET_COUNT as nat, |i: int| if i == bucket_index(d) { 1nat } else { 0nat }),
    }
}

/// Entry `m` after folding in one more sample of `d` milliseconds.
pub open spec fn bump_metric(m: MetricView, d: nat) -> MetricView {
    MetricView {
        name: m.name,
        outcome: m.outcome,
        count: sat_add(m.count, 1),
        sum_ms: sat_add(m.sum_ms, d),
        buckets: m.buckets.update(bucket_index(d), sat_add(m.buckets[bucket_index(d)], 1)),
    }
}

/// The registry contents after recording one sample: the first entry with a
/// matching key is bumped; if none matches, a fresh entry is appended.
pub open spec fn record_spec(
    s: Seq<MetricView>,
    name: Seq<char>,
    outcome: Outcome,
    d: nat,
) -> Seq<MetricView>
    decreases s.len(),
{
    if s.len() == 0 {
        seq![fresh_metric(name, outcome, d)]
    } else if key_matches(s[0], name, outcome) {
        seq![bump_metric(s[0], d)] + s.drop_first()
    } else {
        seq![s[0]] + record_spec(s.drop_first(), name, outcome, d)
    }
}

/// The call count recorded for a key: the count of the first matching entry,
/// or zero when no entry matches.
pub open spec fn count_spec(s: Seq<MetricView>, name: Seq<char>, outcome: Outcome) -> nat
    decreases s.len(),
{
    if s.len() == 0 {
        0
    } else if key_matches(s[0], name, outcome) {
        s[0].count
    } else {
        count_spec(s.drop_first(), name, outcome)
    }
}

/// Well-formed registry contents: every entry has the full set of buckets,
/// every aggregate fits a `u64`, and no two entries share a key.
pub open spec fn wf(s: Seq<MetricView>) -> bool {
    &&& forall|i: int|
        0 <= i < s.len() ==> {
            &&& (#[trigger] s[i]).buckets.len() == BUCKET_COUNT
            &&& s[i].count <= u64::MAX
            &&& s[i].sum_ms <= u64::MAX
            &&& forall|k: int| 0 <= k < s[i].buckets.len() ==> #[trigger] s[i].buckets[k] <= u64::MAX
        }
    &&& forall|i: int, j: int|
        0 <= i < j < s.len() ==> !(key_matches(#[trigger] s[i], (#[trigger] s[j]).name, s[j].outcome))
}

/// One aggregated metric entry.
pub struct Metric {
    name: String,
    outcome: Outcome,
    count: u64,
    sum_ms: u64,
    buckets: Vec<u64>,
}

impl View for Metric {
    type V = MetricView;

    closed spec fn view(&self) -> MetricView {
        MetricView {
            name: self.name@,
            outcome: self.outcome,
            count: self.count as nat,
            sum_ms: self.sum_ms as nat,
            buckets: self.buckets@.map_values(|b: u64| b as nat),
        }
    }
}

impl Metric {
    /// The handler name this entry aggregates.
    pub fn name_str(&self) -> (r: &str)
        ensures
            r@ == self@.name,
    {
        self.name.as_str()
    }

    /// The outcome this entry aggregates.
    pub fn outcome_val(&self) -> (o: Outcome)
        ensures
            o == self@.outcome,
    {
        self.outcome
    }

    /// How many calls were folded into this entry.
    pub fn count_val(&self) -> (c: u64)
        ensures
            c as nat == self@.count,
    {
        self.count
    }

    /// The sum of the recorded durations, in milliseconds.
    pub fn sum_val(&self) -> (s: u64)
        ensures
            s as nat == self@.sum_ms,
    {
        self.sum_ms
    }

    /// How many calls fell into bucket `k`.
    pub fn bucket_val(&self, k: usize) -> (b: u64)
        requires
            k < self@.buckets.len(),
        ensures
            b as nat == self@.buckets[k as int],
    {
        proof {
            assert(self@.buckets.len() == self.buckets@.len());
        }
        self.buckets[k]
    }
}

/// The registry: one entry per (handler name, outcome) pair seen so far, in
/// order of first appearance.
pub struct Registry {
    entries: Vec<Metric>,
}

impl View for Registry {
    type V = Seq<MetricView>;

    closed spec fn view(&self) -> Seq<MetricView> {
        self.entries@.map_values(|m: Metric| m@)
    }
}

/// Saturating `u64` addition.
fn sat_add_u64(a: u64, b: u64) -> (r: u64)
    ensures
        r as nat == sat_add(a as nat, b as nat),
{
    if a <= u64::MAX - b {
        a + b
    } else {
        u64::MAX
    }
}

/// Which bucket a call of `d` milliseconds falls into.
fn bucket_for(d: u64) -> (i: usize)
    ensures
        i as int == bucket_index(d as nat),
        i < BUCKET_COUNT,
{
    if d <= 10 {
        0
    } else if d <= 100 {
        1
    } else if d <= 1000 {
        2
    } else if d <= 10000 {
        3
    } else {
        4
    }
}

impl Registry {
    /// Registry contents the methods preserve.
    pub open spec fn inv(self) -> bool {
        wf(self@)
    }

    /// An empty registry.
    pub fn new() -> (r: Registry)
        ensures
            r@ == Seq::<MetricView>::empty(),
            r.inv(),
    {
        let r = Registry { entries: Vec::new() };
        proof {
            assert(r@ =~= Seq::<MetricView>::empty());
        }
        r
    }

    /// The position of the first entry for this key, if any.
    fn find_idx(&self, name: &String, outcome: Outcome) -> (r: Option<usize>)
        ensures
            match r {
                Some(i) => {
                    &&& 0 <= i < self@.len()
                    &&& key_matches(self@[i as int], name@, outcome)
                    &&& forall|j: int| 0 <= j < i ==> !key_matches(self@[j], name@, outcome)
                },
                None => forall|j: int| 0 <= j < self@.len() ==> !key_matches(self@[j], name@, outcome),
            },
    {
        let n: usize = self.entries.len();
        let mut i: usize = 0;
        while i < n
            invariant
                n == self.entries.len(),
                n == self@.len(),
                0 <= i <= n,
                forall|j: int| 0 <= j < i ==> !key_matches(self@[j], name@, outcome),
            decreases n - i,
        {
            let same_name: bool = self.entries[i].name == *name;
            if same_name && self.entries[i].outcome == outcome {
                proof {
                    assert(self@[i as int] == self.entries@[i as int]@);
                }
                return Some(i);
            }
            proof {
                assert(self@[i as int] == self.entries@[i as int]@);
                assert(!key_matches(self@[i as int], name@, outcome));
            }
            i = i + 1;
        }
        None
    }

    /// Record one sample: bump the entry for `(name, outcome)` by one call of
    /// `duration_ms` milliseconds, creating the entry on first sight of the
    /// key. Exactly one sample is folded in; no other entry changes.
    pub fn record(&mut self, name: &str, outcome: Outcome, duration_ms: u64)
        requires
            old(self).inv(),
        ensures
            final(self).inv(),
            final(self)@ == record_spec(old(self)@, name@, outcome, duration_ms as nat),
    {
        let owned: String = name.to_owned();
        let found: Option<usize> = self.find_idx(&owned, outcome);
        match found {
            Some(i) => {
                let idx: usize = bucket_for(duration_ms);
                proof {
                    assert(self@[i as int] == self.entries@[i as int]@);
                    assert(self@[i as int].buckets.len() == BUCKET_COUNT);
                    assert(self.entries@[i as int].buckets@.len() == BUCKET_COUNT);
                }
                let mut nb: Vec<u64> = Vec::new();
                let mut k: usize = 0;
                while k < BUCKET_COUNT
                    invariant
                        0 <= k <= BUCKET_COUNT,
                        nb@.len() == k,
                        0 <= i < self.entries@.len(),
                        idx as int == bucket_index(duration_ms as nat),
                        self.entries@[i as int].buckets@.len() == BUCKET_COUNT,
                        forall|j: int|
                            0 <= j < k ==> #[trigger] nb@[j] as nat == (if j == idx as int {
                                sat_add(self.entries@[i as int].buckets@[j] as nat, 1)
                            } else {
                                self.entries@[i as int].buckets@[j] as nat
                            }),
                    decreases BUCKET_COUNT - k,
                {
                    let v: u64 = self.entries[i].buckets[k];
                    if k == idx {
                        nb.push(sat_add_u64(v, 1));
                    } else {
                        nb.push(v);
                    }
                    k = k + 1;
                }
                let new_m = Metric {
                    name: self.entries[i].name.clone(),
                    outcome,
                    count: sat_add_u64(self.entries[i].count, 1),
                    sum_ms: sat_add_u64(self.entries[i].sum_ms, duration_ms),
                    buckets: nb,
                };
                proof {
                    assert(new_m@.buckets =~= bump_metric(old(self)@[i as int], duration_ms as nat).buckets);
                    assert(new_m@ == bump_metric(old(self)@[i as int], duration_ms as nat));
                }
                self.entries[i] = new_m;
                proof {
                    assert(self@ =~= old(self)@.update(
                        i as int,
                        bump_metric(old(self)@[i as int], duration_ms as nat),
                    ));
                    lemma_record_found(old(self)@, name@, outcome, duration_ms as nat, i as int);
                    assert(final(self)@ == record_spec(old(self)@, name@, outcome, duration_ms as nat));
                    assert(wf(self@));
                }
            },
            None => {
                let m = fresh_entry(owned, outcome, duration_ms);
                self.entries.push(m);
                proof {
                    assert(self@ =~= old(self)@.push(fresh_metric(name@, outcome, duration_ms as nat)));
                    lemma_record_absent(old(self)@, name@, outcome, duration_ms as nat);
                    assert(wf(self@));
                }
            },
        }
    }

    /// The number of calls recorded so far for this handler and outcome.
    pub fn count_of(&self, name: &str, outcome: Outcome) -> (c: u64)
        ensures
            c as nat == count_spec(self@, name@, outcome),
    {
        let owned: String = name.to_owned();
        let found: Option<usize> = self.find_idx(&owned, outcome);
        match found {
            Some(i) => {
                proof {
                    lemma_count_found(self@, name@, outcome, i as int);
                    assert(self@[i as int] == self.entries@[i as int]@);
                }
                self.entries[i].count
            },
            None => {
                proof {
                    lemma_count_absent(self@, name@, outcome);
                }
                0
            },
        }
    }

    /// The number of distinct (handler name, outcome) keys seen so far.
    pub fn len(&self) -> (n: usize)
        ensures
            n == self@.len(),
    {
        self.entries.len()
    }

    /// The entry at position `i`, in order of first appearance.
    pub fn entry_at(&self, i: usize) -> (m: &Metric)
        requires
            i < self@.len(),
        ensures
            m@ == self@[i as int],
    {
        proof {
            assert(self@[i as int] == self.entries@[i as int]@);
        }
        &self.entries[i]
    }
}

/// A brand-new entry holding one sample.
fn fresh_entry(name: String, outcome: Outcome, duration_ms: u64) -> (m: Metric)
    ensures
        m@ == fresh_metric(name@, outcome, duration_ms as nat),
{
    let idx: usize = bucket_for(duration_ms);
    let mut b: Vec<u64> = Vec::new();
    let mut k: usize = 0;
    while k < BUCKET_COUNT
        invariant
            0 <= k <= BUCKET_COUNT,
            b@.len() == k,
            idx as int == bucket_index(duration_ms as nat),
            forall|j: int| 0 <= j < k ==> #[trigger] b@[j] == (if j == idx as int { 1u64 } else { 0u64 }),
        decreases BUCKET_COUNT - k,
    {
        if k == idx {
            b.push(1);
        } else {
            b.push(0);
        }
        k = k + 1;
    }
    let m = Metric { name, outcome, count: 1, sum_ms: duration_ms, buckets: b };
    proof {
        assert(m@.buckets =~= fresh_metric(m.name@, outcome, duration_ms as nat).buckets);
    }
    m
}

/// When the first entry for the key stands at `i`, recording rewrites exactly
/// that entry and keeps every other one.
proof fn lemma_record_found(s: Seq<MetricView>, name: Seq<char>, outcome: Outcome, d: nat, i: int)
    requires
        0 <= i < s.len(),
        key_matches(s[i], name, outcome),
        forall|j: int| 0 <= j < i ==> !key_matches(s[j], name, outcome),
    ensures
        record_spec(s, name, outcome, d) == s.update(i, bump_metric(s[i], d)),
    decreases i,
{
    if i == 0 {
        assert(record_spec(s, name, outcome, d) =~= s.update(0, bump_metric(s[0], d)));
    } else {
        lemma_record_found(s.drop_first(), name, outcome, d, i - 1);
        assert(record_spec(s, name, outcome, d) =~= s.update(i, bump_metric(s[i], d)));
    }
}

/// When no entry holds the key, recording appends a fresh entry and keeps
/// every existing one.
proof fn lemma_record_absent(s: Seq<MetricView>, name: Seq<char>, outcome: Outcome, d: nat)
    requires
        forall|j: int| 0 <= j < s.len() ==> !key_matches(s[j], name, outcome),
    ensures
        record_spec(s, name, outcome, d) == s.push(fresh_metric(name, outcome, d)),
    decreases s.len(),
{
    if s.len() == 0 {
        assert(record_spec(s, name, outcome, d) =~= s.push(fresh_metric(name, outcome, d)));
    } else {
        lemma_record_absent(s.drop_first(), name, outcome, d);
        assert(record_spec(s, name, outcome, d) =~= s.push(fresh_metric(name, outcome, d)));
    }
}

/// The recorded count for a key is the count of its first entry.
proof fn lemma_count_found(s: Seq<MetricView>, name: Seq<char>, outcome: Outcome, i: int)
    requires
        0 <= i < s.len(),
        key_matches(s[i], name, outcome),
        forall|j: int| 0 <= j < i ==> !key_matches(s[j], name, outcome),
    ensures
        count_spec(s, name, outcome) == s[i].count,
    decreases i,
{
    if i == 0 {
    } else {
        lemma_count_found(s.drop_first(), name, outcome, i - 1);
    }
}

/// A key with no entry has count zero.
proof fn lemma_count_absent(s: Seq<MetricView>, name: Seq<char>, outcome: Outcome)
    requires
        forall|j: int| 0 <= j < s.len() ==> !key_matches(s[j], name, outcome),
    ensures
        count_spec(s, name, outcome) == 0,
    decreases s.len(),
{
    if s.len() == 0 {
    } else {
        lemma_count_absent(s.drop_first(), name, outcome);
    }
}

/// Recording under one key does not change the count of a different key.
proof fn lemma_record_preserves_other(
    s: Seq<MetricView>,
    name: Seq<char>,
    outcome: Outcome,
    d: nat,
    n2: Seq<char>,
    o2: Outcome,
)
    requires
        !(n2 == name && o2 == outcome),
    ensures
        count_spec(record_spec(s, name, outcome, d), n2, o2) == count_spec(s, n2, o2),
    decreases s.len(),
{
    let r = record_spec(s, name, outcome, d);
    if s.len() == 0 {
        assert(r[0] == fresh_metric(name, outcome, d));
        assert(!key_matches(r[0], n2, o2));
        assert(r.drop_first() =~= Seq::<MetricView>::empty());
        assert(count_spec(r.drop_first(), n2, o2) == 0);
    } else if key_matches(s[0], name, outcome) {
        assert(r[0] == bump_metric(s[0], d));
        assert(r.drop_first() =~= s.drop_first());
        assert(key_matches(r[0], n2, o2) == key_matches(s[0], n2, o2));
    } else {
        lemma_record_preserves_other(s.drop_first(), name, outcome, d, n2, o2);
        assert(r[0] == s[0]);
        assert(r.drop_first() =~= record_spec(s.drop_first(), name, outcome, d));
    }
}

/// Law: recording one sample raises the recorded key's call count by exactly
/// one (saturating at `u64::MAX`) and leaves every other key's count as it
/// was — each invocation contributes exactly one sample, to its own key.
pub proof fn lemma_record_updates_counts(
    s: Seq<MetricView>,
    name: Seq<char>,
    outcome: Outcome,
    d: nat,
)
    ensures
        count_spec(record_spec(s, name, outcome, d), name, outcome) == sat_add(
            count_spec(s, name, outcome),
            1,
        ),
        forall|n2: Seq<char>, o2: Outcome|
            !(n2 == name && o2 == outcome) ==> #[trigger] count_spec(
                record_spec(s, name, outcome, d),
                n2,
                o2,
            ) == count_spec(s, n2, o2),
    decreases s.len(),
{
    if s.len() == 0 {
    } else if key_matches(s[0], name, outcome) {
        let r = record_spec(s, name, outcome, d);
        assert(r[0] == bump_metric(s[0], d));
        assert(r.drop_first() =~= s.drop_first());
    } else {
        lemma_record_updates_counts(s.drop_first(), name, outcome, d);
        let r = record_spec(s, name, outcome, d);
        assert(r[0] == s[0]);
        assert(r.drop_first() =~= record_spec(s.drop_first(), name, outcome, d));
    }
    assert forall|n2: Seq<char>, o2: Outcome| !(n2 == name && o2 == outcome) implies #[trigger] count_spec(
        record_spec(s, name, outcome, d),
        n2,
        o2,
    ) == count_spec(s, n2, o2) by {
        lemma_record_preserves_other(s, name, outcome, d, n2, o2);
    }
}

/// The registry contents after `k` samples of the same key and duration.
pub open spec fn record_n_spec(
    s: Seq<MetricView>,
    name: Seq<char>,
    outcome: Outcome,
    d: nat,
    k: nat,
) -> Seq<MetricView>
    decreases k,
{
    if k == 0 {
        s
    } else {
        record_spec(record_n_spec(s, name, outcome, d, (k - 1) as nat), name, outcome, d)
    }
}

/// Law: `k` recorded calls raise the key's counter by exactly `k` — no sample
/// is lost — as long as the counter does not saturate.
pub proof fn lemma_records_accumulate(
    s: Seq<MetricView>,
    name: Seq<char>,
    outcome: Outcome,
    d: nat,
    k: nat,
)
    requires
        count_spec(s, name, outcome) + k <= u64::MAX,
    ensures
        count_spec(record_n_spec(s, name, outcome, d, k), name, outcome) == count_spec(
            s,
            name,
            outcome,
        ) + k,
    decreases k,
{
    if k == 0 {
    } else {
        lemma_records_accumulate(s, name, outcome, d, (k - 1) as nat);
        lemma_record_updates_counts(record_n_spec(s, name, outcome, d, (k - 1) as nat), name, outcome, d);
    }
}

} // verus!
