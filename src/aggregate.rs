//! Per-device frequency histograms of readings.
//!
//! Each device, named by its identifier, has a histogram from reading keys
//! (see `readings`) to how often each reading was seen, and a count of
//! completed iterations that always equals the histogram's total.
use vstd::prelude::*;

use crate::readings::{reading_key, reading_key_spec, total};
use crate::text::{clean_name, clean_name_spec};

verus! {

/// One device's readings: entries `(key, count)` in increasing key order.
pub struct DeviceHistogram {
    pub device: String,
    pub iterations: u64,
    pub counts: Vec<(u32, u64)>,
}

pub open spec fn sorted_keys(s: Seq<(u32, u64)>) -> bool {
    forall|i: int, j: int| 0 <= i < j < s.len() ==> s[i].0 < s[j].0
}

pub open spec fn positive_counts(s: Seq<(u32, u64)>) -> bool {
    forall|i: int| 0 <= i < s.len() ==> (#[trigger] s[i]).1 > 0
}

/// How often the reading with key `k` occurs in a histogram.
pub open spec fn count_in(s: Seq<(u32, u64)>, k: u32) -> nat {
    if exists|i: int| 0 <= i < s.len() && s[i].0 == k {
        s[choose|i: int| 0 <= i < s.len() && s[i].0 == k].1 as nat
    } else {
        0
    }
}

impl DeviceHistogram {
    /// Keys in order, only readings that were seen, and the iteration count
    /// equal to the sum of the counts.
    pub open spec fn wf(&self) -> bool {
        &&& sorted_keys(self.counts@)
        &&& positive_counts(self.counts@)
        &&& total(self.counts@) == self.iterations
    }
}

pub open spec fn names(s: Seq<DeviceHistogram>) -> Seq<Seq<char>> {
    s.map_values(|r: DeviceHistogram| r.device@)
}

pub open spec fn unique_names(n: Seq<Seq<char>>) -> bool {
    forall|i: int, j: int| 0 <= i < n.len() && 0 <= j < n.len() && i != j ==> n[i] != n[j]
}

/// Position of the device named `d`, or -1.
pub open spec fn index_of(n: Seq<Seq<char>>, d: Seq<char>) -> int {
    if n.contains(d) {
        choose|i: int| 0 <= i < n.len() && n[i] == d
    } else {
        -1
    }
}

/// How often device `d` read the value with key `k`.
pub open spec fn count(s: Seq<DeviceHistogram>, d: Seq<char>, k: u32) -> nat {
    let i = index_of(names(s), d);
    if i >= 0 {
        count_in(s[i].counts@, k)
    } else {
        0
    }
}

/// How many iterations device `d` completed.
pub open spec fn iterations(s: Seq<DeviceHistogram>, d: Seq<char>) -> nat {
    let i = index_of(names(s), d);
    if i >= 0 {
        s[i].iterations as nat
    } else {
        0
    }
}

pub open spec fn state_wf(s: Seq<DeviceHistogram>) -> bool {
    &&& unique_names(names(s))
    &&& forall|i: int| 0 <= i < s.len() ==> #[trigger] s[i].wf()
}

/// The effect of one reading `k` of device `d`: the device is listed (at the
/// end if it is new) and both its iteration count and the count of `k` grow
/// by one; nothing else changes.
pub open spec fn added(
    pre: Seq<DeviceHistogram>,
    post: Seq<DeviceHistogram>,
    d: Seq<char>,
    k: u32,
) -> bool {
    &&& names(post) == if names(pre).contains(d) {
        names(pre)
    } else {
        names(pre).push(d)
    }
    &&& forall|d2: Seq<char>, k2: u32| #[trigger]
        count(post, d2, k2) == count(pre, d2, k2) + if d2 == d && k2 == k {
            1nat
        } else {
            0nat
        }
    &&& forall|d2: Seq<char>| #[trigger]
        iterations(post, d2) == iterations(pre, d2) + if d2 == d {
            1nat
        } else {
            0nat
        }
}

proof fn lemma_count_le_total(s: Seq<(u32, u64)>, j: int)
    requires
        0 <= j < s.len(),
    ensures
        s[j].1 <= total(s),
    decreases s.len(),
{
    if j < s.len() - 1 {
        lemma_count_le_total(s.drop_last(), j);
    }
}

proof fn lemma_total_update(s: Seq<(u32, u64)>, i: int, v: (u32, u64))
    requires
        0 <= i < s.len(),
    ensures
        total(s.update(i, v)) == total(s) - s[i].1 + v.1,
    decreases s.len(),
{
    if i == s.len() - 1 {
        assert(s.update(i, v).drop_last() =~= s.drop_last());
    } else {
        assert(s.update(i, v).drop_last() =~= s.drop_last().update(i, v));
        lemma_total_update(s.drop_last(), i, v);
    }
}

proof fn lemma_total_insert(s: Seq<(u32, u64)>, p: int, v: (u32, u64))
    requires
        0 <= p <= s.len(),
    ensures
        total(s.insert(p, v)) == total(s) + v.1,
    decreases s.len(),
{
    if p == s.len() {
        assert(s.insert(p, v).drop_last() =~= s);
    } else {
        assert(s.insert(p, v).drop_last() =~= s.drop_last().insert(p, v));
        lemma_total_insert(s.drop_last(), p, v);
    }
}

proof fn lemma_count_in_at(s: Seq<(u32, u64)>, j: int)
    requires
        sorted_keys(s),
        0 <= j < s.len(),
    ensures
        count_in(s, s[j].0) == s[j].1,
{
    let k = s[j].0;
    assert(exists|i: int| 0 <= i < s.len() && s[i].0 == k);
    let c = choose|i: int| 0 <= i < s.len() && s[i].0 == k;
    if c < j {
        assert(s[c].0 < s[j].0);
    } else if c > j {
        assert(s[j].0 < s[c].0);
    }
}

/// Adds one occurrence of `key` to a histogram.
fn bump(counts: &mut Vec<(u32, u64)>, key: u32)
    requires
        sorted_keys(old(counts)@),
        positive_counts(old(counts)@),
        total(old(counts)@) < u64::MAX,
    ensures
        sorted_keys(final(counts)@),
        positive_counts(final(counts)@),
        total(final(counts)@) == total(old(counts)@) + 1,
        forall|k2: u32| #[trigger]
            count_in(final(counts)@, k2) == count_in(old(counts)@, k2) + if k2 == key {
                1nat
            } else {
                0nat
            },
{
    let ghost s = counts@;
    let mut p: usize = 0;
    while p < counts.len() && counts[p].0 < key
        invariant
            counts@ == s,
            p <= s.len(),
            forall|i: int| 0 <= i < p ==> s[i].0 < key,
        decreases s.len() - p,
    {
        p = p + 1;
    }
    if p < counts.len() && counts[p].0 == key {
        let c = counts[p].1;
        proof {
            lemma_count_le_total(s, p as int);
        }
        counts[p] = (key, c + 1);
        proof {
            let t = counts@;
            assert(t == s.update(p as int, (key, (c + 1) as u64)));
            lemma_total_update(s, p as int, (key, (c + 1) as u64));
            assert forall|k2: u32| #[trigger]
                count_in(t, k2) == count_in(s, k2) + if k2 == key {
                    1nat
                } else {
                    0nat
                } by {
                if k2 == key {
                    lemma_count_in_at(t, p as int);
                    lemma_count_in_at(s, p as int);
                } else if exists|i: int| 0 <= i < s.len() && s[i].0 == k2 {
                    let j = choose|i: int| 0 <= i < s.len() && s[i].0 == k2;
                    lemma_count_in_at(t, j);
                    lemma_count_in_at(s, j);
                } else {
                    assert(!exists|i: int| 0 <= i < t.len() && t[i].0 == k2) by {
                        if exists|i: int| 0 <= i < t.len() && t[i].0 == k2 {
                            let j = choose|i: int| 0 <= i < t.len() && t[i].0 == k2;
                            assert(s[j].0 == k2);
                        }
                    }
                }
            }
        }
    } else {
        counts.insert(p, (key, 1));
        proof {
            let t = counts@;
            assert(t == s.insert(p as int, (key, 1u64)));
            lemma_total_insert(s, p as int, (key, 1u64));
            assert(sorted_keys(t)) by {
                assert forall|i: int, j: int| 0 <= i < j < t.len() implies t[i].0 < t[j].0 by {
                    if j < p {
                    } else if j == p {
                    } else if i < p {
                    } else if i == p {
                        assert(t[j] == s[j - 1]);
                        if p < s.len() {
                            assert(s[p as int].0 > key);
                            if j - 1 > p {
                                assert(s[p as int].0 < s[j - 1].0);
                            }
                        }
                    } else {
                        assert(t[i] == s[i - 1] && t[j] == s[j - 1]);
                    }
                }
            }
            assert forall|k2: u32| #[trigger]
                count_in(t, k2) == count_in(s, k2) + if k2 == key {
                    1nat
                } else {
                    0nat
                } by {
                if k2 == key {
                    lemma_count_in_at(t, p as int);
                    assert(!exists|i: int| 0 <= i < s.len() && s[i].0 == k2) by {
                        if exists|i: int| 0 <= i < s.len() && s[i].0 == k2 {
                            let j = choose|i: int| 0 <= i < s.len() && s[i].0 == k2;
                            if j >= p {
                                assert(s[p as int].0 > key);
                                if j > p {
                                    assert(s[p as int].0 < s[j].0);
                                }
                            }
                        }
                    }
                } else if exists|i: int| 0 <= i < s.len() && s[i].0 == k2 {
                    let j = choose|i: int| 0 <= i < s.len() && s[i].0 == k2;
                    lemma_count_in_at(s, j);
                    if j < p {
                        assert(t[j] == s[j]);
                        lemma_count_in_at(t, j);
                    } else {
                        assert(t[j + 1] == s[j]);
                        lemma_count_in_at(t, j + 1);
                    }
                } else {
                    assert(!exists|i: int| 0 <= i < t.len() && t[i].0 == k2) by {
                        if exists|i: int| 0 <= i < t.len() && t[i].0 == k2 {
                            let j = choose|i: int| 0 <= i < t.len() && t[i].0 == k2;
                            if j < p {
                                assert(s[j].0 == k2);
                            } else if j > p {
                                assert(s[j - 1].0 == k2);
                            }
                        }
                    }
                }
            }
        }
    }
}

/// The names in order of first appearance, each once.
pub open spec fn distinct(n: Seq<Seq<char>>) -> Seq<Seq<char>>
    decreases n.len(),
{
    if n.len() == 0 {
        n
    } else {
        let d = distinct(n.drop_last());
        if d.contains(n.last()) {
            d
        } else {
            d.push(n.last())
        }
    }
}

proof fn lemma_index_of(n: Seq<Seq<char>>, j: int)
    requires
        unique_names(n),
        0 <= j < n.len(),
    ensures
        index_of(n, n[j]) == j,
{
    assert(n.contains(n[j]));
}

/// Appending an empty histogram for a new device changes no count.
proof fn lemma_push_empty(pre: Seq<DeviceHistogram>, rec: DeviceHistogram)
    requires
        state_wf(pre),
        !names(pre).contains(rec.device@),
        rec.counts@.len() == 0,
        rec.iterations == 0,
    ensures
        state_wf(pre.push(rec)),
        names(pre.push(rec)) == names(pre).push(rec.device@),
        forall|d2: Seq<char>, k2: u32| #[trigger]
            count(pre.push(rec), d2, k2) == count(pre, d2, k2),
        forall|d2: Seq<char>| #[trigger] iterations(pre.push(rec), d2) == iterations(pre, d2),
{
    let post = pre.push(rec);
    let np = names(pre);
    let nq = names(post);
    assert(nq =~= np.push(rec.device@));
    assert(unique_names(nq)) by {
        assert forall|i: int, j: int|
            0 <= i < nq.len() && 0 <= j < nq.len() && i != j implies nq[i] != nq[j] by {
            if i == np.len() {
                assert(np[j] == nq[j]);
            } else if j == np.len() {
                assert(np[i] == nq[i]);
            }
        }
    }
    assert(total(rec.counts@) == 0);
    assert forall|i: int| 0 <= i < post.len() implies #[trigger] post[i].wf() by {
        if i < pre.len() {
            assert(post[i] == pre[i]);
        }
    }
    assert forall|d2: Seq<char>, k2: u32| #[trigger]
        count(post, d2, k2) == count(pre, d2, k2) by {
        if np.contains(d2) {
            let j = choose|i: int| 0 <= i < np.len() && np[i] == d2;
            lemma_index_of(np, j);
            assert(nq[j] == d2);
            lemma_index_of(nq, j);
        } else if d2 == rec.device@ {
            lemma_index_of(nq, np.len() as int);
        } else {
            assert(!nq.contains(d2)) by {
                if nq.contains(d2) {
                    let j = choose|i: int| 0 <= i < nq.len() && nq[i] == d2;
                    assert(np[j] == d2);
                }
            }
        }
    }
    assert forall|d2: Seq<char>| #[trigger] iterations(post, d2) == iterations(pre, d2) by {
        if np.contains(d2) {
            let j = choose|i: int| 0 <= i < np.len() && np[i] == d2;
            lemma_index_of(np, j);
            assert(nq[j] == d2);
            lemma_index_of(nq, j);
        } else if d2 == rec.device@ {
            lemma_index_of(nq, np.len() as int);
        } else {
            assert(!nq.contains(d2)) by {
                if nq.contains(d2) {
                    let j = choose|i: int| 0 <= i < nq.len() && nq[i] == d2;
                    assert(np[j] == d2);
                }
            }
        }
    }
}

/// Replacing a device's histogram by one with a reading more is `added`.
proof fn lemma_update_added(
    pre: Seq<DeviceHistogram>,
    i: int,
    rec: DeviceHistogram,
    k: u32,
)
    requires
        state_wf(pre),
        0 <= i < pre.len(),
        rec.wf(),
        rec.device@ == pre[i].device@,
        rec.iterations == pre[i].iterations + 1,
        forall|k2: u32| #[trigger]
            count_in(rec.counts@, k2) == count_in(pre[i].counts@, k2) + if k2 == k {
                1nat
            } else {
                0nat
            },
    ensures
        state_wf(pre.update(i, rec)),
        added(pre, pre.update(i, rec), pre[i].device@, k),
{
    let post = pre.update(i, rec);
    let d = pre[i].device@;
    let np = names(pre);
    assert(names(post) =~= np);
    assert(np[i] == d);
    lemma_index_of(np, i);
    assert forall|j: int| 0 <= j < post.len() implies #[trigger] post[j].wf() by {
        if j != i {
            assert(post[j] == pre[j]);
        }
    }
    assert forall|d2: Seq<char>, k2: u32| #[trigger]
        count(post, d2, k2) == count(pre, d2, k2) + if d2 == d && k2 == k {
            1nat
        } else {
            0nat
        } by {
        if np.contains(d2) {
            let j = choose|x: int| 0 <= x < np.len() && np[x] == d2;
            lemma_index_of(np, j);
        }
    }
    assert forall|d2: Seq<char>| #[trigger]
        iterations(post, d2) == iterations(pre, d2) + if d2 == d {
            1nat
        } else {
            0nat
        } by {
        if np.contains(d2) {
            let j = choose|x: int| 0 <= x < np.len() && np[x] == d2;
            lemma_index_of(np, j);
        }
    }
}

/// Position of the device named `name`.
fn find_device(data: &Vec<DeviceHistogram>, name: &String) -> (r: Option<usize>)
    ensures
        match r {
            Some(i) => i < data@.len() && names(data@)[i as int] == name@,
            None => !names(data@).contains(name@),
        },
{
    let mut i: usize = 0;
    while i < data.len()
        invariant
            i <= data@.len(),
            forall|j: int| 0 <= j < i ==> names(data@)[j] != name@,
        decreases data@.len() - i,
    {
        if data[i].device == *name {
            return Some(i);
        }
        i = i + 1;
    }
    None
}

/// The readings of every device of a run.
pub struct TestState {
    data: Vec<DeviceHistogram>,
}

impl View for TestState {
    type V = Seq<DeviceHistogram>;

    closed spec fn view(&self) -> Seq<DeviceHistogram> {
        self.data@
    }
}

impl TestState {
    pub open spec fn wf(&self) -> bool {
        state_wf(self@)
    }

    /// A state with an empty histogram for each named device, names cleaned
    /// of surrounding whitespace and trailing NULs, each listed once.
    pub fn new(device_names: Vec<String>) -> (r: TestState)
        ensures
            r.wf(),
            names(r@) == distinct(device_names@.map_values(|n: String| clean_name_spec(n@))),
            forall|d: Seq<char>, k: u32| #[trigger] count(r@, d, k) == 0,
            forall|d: Seq<char>| #[trigger] iterations(r@, d) == 0,
    {
        let ghost cleaned = device_names@.map_values(|n: String| clean_name_spec(n@));
        let mut data: Vec<DeviceHistogram> = Vec::new();
        let mut i: usize = 0;
        while i < device_names.len()
            invariant
                i <= device_names@.len(),
                cleaned == device_names@.map_values(|n: String| clean_name_spec(n@)),
                state_wf(data@),
                names(data@) == distinct(cleaned.subrange(0, i as int)),
                forall|j: int| 0 <= j < data@.len() ==> (#[trigger] data@[j]).counts@.len() == 0,
                forall|j: int| 0 <= j < data@.len() ==> (#[trigger] data@[j]).iterations == 0,
            decreases device_names@.len() - i,
        {
            let name = clean_name(device_names[i].as_str());
            assert(cleaned.subrange(0, i + 1).drop_last() =~= cleaned.subrange(0, i as int));
            match find_device(&data, &name) {
                Some(_) => {},
                None => {
                    let rec = DeviceHistogram { device: name, iterations: 0, counts: Vec::new() };
                    proof {
                        lemma_push_empty(data@, rec);
                    }
                    data.push(rec);
                },
            }
            i = i + 1;
        }
        assert(cleaned.subrange(0, i as int) =~= cleaned);
        let r = TestState { data };
        assert forall|d: Seq<char>, k: u32| #[trigger] count(r@, d, k) == 0 by {
            let j = index_of(names(r@), d);
            if j >= 0 {
                assert(r@[j].counts@.len() == 0);
            }
        }
        assert forall|d: Seq<char>| #[trigger] iterations(r@, d) == 0 by {
            let j = index_of(names(r@), d);
            if j >= 0 {
                assert(r@[j].counts@.len() == 0 && r@[j].iterations == 0);
            }
        }
        r
    }

    /// Records one reading, given by its bit pattern, for a device; a device
    /// not seen before is added. Refused, with nothing changed, only when
    /// the device's iteration count cannot grow.
    pub fn add_iteration(&mut self, device_name: &str, value_bits: u32) -> (ok: bool)
        requires
            old(self).wf(),
        ensures
            final(self).wf(),
            ok == (iterations(old(self)@, clean_name_spec(device_name@)) < u64::MAX),
            ok ==> added(
                old(self)@,
                final(self)@,
                clean_name_spec(device_name@),
                reading_key_spec(value_bits),
            ),
            !ok ==> final(self)@ == old(self)@,
    {
        let name = clean_name(device_name);
        let key = reading_key(value_bits);
        let ghost pre = self.data@;
        let idx = match find_device(&self.data, &name) {
            Some(i) => {
                proof {
                    lemma_index_of(names(pre), i as int);
                }
                if self.data[i].iterations == u64::MAX {
                    return false;
                }
                i
            },
            None => {
                let rec = DeviceHistogram { device: name, iterations: 0, counts: Vec::new() };
                proof {
                    lemma_push_empty(pre, rec);
                }
                self.data.push(rec);
                proof {
                    lemma_index_of(names(self.data@), pre.len() as int);
                }
                self.data.len() - 1
            },
        };
        let ghost mid = self.data@;
        assert(mid[idx as int].wf());
        let mut counts = Vec::new();
        std::mem::swap(&mut counts, &mut self.data[idx].counts);
        bump(&mut counts, key);
        std::mem::swap(&mut counts, &mut self.data[idx].counts);
        self.data[idx].iterations = self.data[idx].iterations + 1;
        proof {
            lemma_update_added(mid, idx as int, self.data@[idx as int], key);
            assert(self.data@ == mid.update(idx as int, self.data@[idx as int]));
        }
        true
    }

    /// A deep copy of every device's histogram, in the order the devices were
    /// first seen. Each histogram's counts sum to its iteration count.
    pub fn get_data(&self) -> (r: Vec<DeviceHistogram>)
        requires
            self.wf(),
        ensures
            names(r@) == names(self@),
            forall|i: int| 0 <= i < r@.len() ==> #[trigger] r@[i].wf(),
            forall|i: int|
                0 <= i < r@.len() ==> #[trigger] r@[i].iterations == iterations(
                    self@,
                    r@[i].device@,
                ),
            forall|i: int, k: u32|
                0 <= i < r@.len() ==> #[trigger] count_in(r@[i].counts@, k) == count(
                    self@,
                    r@[i].device@,
                    k,
                ),
            forall|i: int| 0 <= i < r@.len() ==> total(#[trigger] r@[i].counts@) == r@[i].iterations,
    {
        let mut r: Vec<DeviceHistogram> = Vec::new();
        let mut i: usize = 0;
        while i < self.data.len()
            invariant
                i <= self.data@.len(),
                state_wf(self.data@),
                r@.len() == i,
                forall|j: int|
                    0 <= j < i ==> #[trigger] r@[j].device@ == self.data@[j].device@
                        && r@[j].iterations == self.data@[j].iterations && r@[j].counts@
                        == self.data@[j].counts@,
            decreases self.data@.len() - i,
        {
            let src = &self.data[i];
            let mut counts: Vec<(u32, u64)> = Vec::new();
            let mut j: usize = 0;
            while j < src.counts.len()
                invariant
                    j <= src.counts@.len(),
                    counts@ == src.counts@.subrange(0, j as int),
                decreases src.counts@.len() - j,
            {
                counts.push(src.counts[j]);
                assert(counts@ =~= src.counts@.subrange(0, j + 1));
                j = j + 1;
            }
            assert(counts@ =~= src.counts@);
            r.push(
                DeviceHistogram {
                    device: src.device.clone(),
                    iterations: src.iterations,
                    counts,
                },
            );
            i = i + 1;
        }
        proof {
            assert(names(r@) =~= names(self.data@));
            assert forall|x: int| 0 <= x < r@.len() implies #[trigger] r@[x].iterations
                == iterations(self@, r@[x].device@) by {
                assert(r@[x].device@ == self.data@[x].device@);
                lemma_index_of(names(self.data@), x);
            }
            assert forall|x: int, k: u32|
                0 <= x < r@.len() implies #[trigger] count_in(r@[x].counts@, k) == count(
                self@,
                r@[x].device@,
                k,
            ) by {
                assert(r@[x].device@ == self.data@[x].device@);
                lemma_index_of(names(self.data@), x);
            }
            assert forall|x: int| 0 <= x < r@.len() implies #[trigger] r@[x].wf() by {
                assert(r@[x].device@ == self.data@[x].device@);
                assert(self.data@[x].wf());
            }
            assert forall|x: int| 0 <= x < r@.len() implies total(#[trigger] r@[x].counts@)
                == r@[x].iterations by {
                assert(r@[x].device@ == self.data@[x].device@);
                assert(self.data@[x].wf());
            }
        }
        r
    }
}

/// Recording the same reading of the same device over a run of states
/// raises that reading's count by the number of records.
pub proof fn lemma_repeated_add(states: Seq<Seq<DeviceHistogram>>, d: Seq<char>, k: u32)
    requires
        states.len() >= 1,
        forall|i: int| 0 <= i < states.len() - 1 ==> added(#[trigger] states[i], states[i + 1], d, k),
    ensures
        count(states.last(), d, k) == count(states[0], d, k) + (states.len() - 1),
        iterations(states.last(), d) == iterations(states[0], d) + (states.len() - 1),
    decreases states.len(),
{
    if states.len() > 1 {
        let prefix = states.drop_last();
        assert forall|i: int| 0 <= i < prefix.len() - 1 implies added(
            #[trigger] prefix[i],
            prefix[i + 1],
            d,
            k,
        ) by {
            assert(prefix[i] == states[i] && prefix[i + 1] == states[i + 1]);
            assert(added(states[i], states[i + 1], d, k));
        }
        lemma_repeated_add(prefix, d, k);
        assert(added(states[states.len() - 2], states[states.len() - 1], d, k));
    }
}

} // verus!
