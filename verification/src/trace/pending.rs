//! Probes that have been sent and not been answered.

use crate::addr::IpAddr;
use crate::state::ProbeId;
use vstd::prelude::*;

verus! {

/// What tells outstanding probes apart.
#[derive(Clone, Copy, Debug, PartialEq, Eq, Structural)]
pub struct PendingKey {
    pub probe_id: ProbeId,
    pub flow_id: u8,
    pub target: IpAddr,
    /// Path-MTU probes count their sequence numbers apart.
    pub is_pmtud: bool,
}

/// An outstanding probe. Times are monotonic nanoseconds.
#[derive(Clone, Copy, Debug, PartialEq, Eq, Structural)]
pub struct PendingProbe {
    pub sent_at: u64,
    pub target: IpAddr,
    pub flow_id: u8,
    /// Source port it was sent from, for NAT detection.
    pub original_src_port: Option<u16>,
    /// Packet size of a path-MTU probe.
    pub packet_size: Option<u16>,
}

/// An outstanding probe with its key.
#[derive(Clone, Copy, Debug, PartialEq, Eq, Structural)]
pub struct PendingEntry {
    pub key: PendingKey,
    pub probe: PendingProbe,
}

/// The outstanding probes.
pub struct PendingMap {
    entries: Vec<PendingEntry>,
}

/// Whether no key occurs twice.
pub open spec fn distinct_keys(entries: Seq<PendingEntry>) -> bool {
    forall|i: int, j: int|
        0 <= i < j < entries.len() ==> (#[trigger] entries[i]).key != (#[trigger] entries[j]).key
}

/// Whether a key occurs.
pub open spec fn has_key(entries: Seq<PendingEntry>, key: PendingKey) -> bool {
    exists|i: int| 0 <= i < entries.len() && (#[trigger] entries[i]).key == key
}

/// What a key stands for.
pub open spec fn value_of(entries: Seq<PendingEntry>, key: PendingKey) -> PendingProbe {
    entries[choose|i: int| 0 <= i < entries.len() && (#[trigger] entries[i]).key == key].probe
}

/// Entries as a map.
pub open spec fn as_map(entries: Seq<PendingEntry>) -> Map<PendingKey, PendingProbe> {
    Map::new(|key: PendingKey| has_key(entries, key), |key: PendingKey| value_of(entries, key))
}

/// In distinct entries, an entry is what its key stands for.
proof fn lemma_entry_value(entries: Seq<PendingEntry>, i: int)
    requires
        distinct_keys(entries),
        0 <= i < entries.len(),
    ensures
        has_key(entries, entries[i].key),
        value_of(entries, entries[i].key) == entries[i].probe,
{
    let key = entries[i].key;
    let j = choose|j: int| 0 <= j < entries.len() && (#[trigger] entries[j]).key == key;
    if i < j {
        assert(entries[i].key != entries[j].key);
    } else if j < i {
        assert(entries[j].key != entries[i].key);
    }
}

/// Taking an entry out takes its key out of the map.
proof fn lemma_remove(entries: Seq<PendingEntry>, at: int)
    requires
        distinct_keys(entries),
        0 <= at < entries.len(),
    ensures
        distinct_keys(entries.remove(at)),
        as_map(entries.remove(at)) == as_map(entries).remove(entries[at].key),
{
    let less = entries.remove(at);
    assert forall|i: int| 0 <= i < less.len() implies #[trigger] less[i] == entries[if i < at {
        i
    } else {
        i + 1
    }] by {}
    assert forall|i: int, j: int| 0 <= i < j < less.len() implies (#[trigger] less[i]).key != (
    #[trigger] less[j]).key by {
        let a = if i < at {
            i
        } else {
            i + 1
        };
        let b = if j < at {
            j
        } else {
            j + 1
        };
        assert(entries[a].key != entries[b].key);
    }
    assert forall|key: PendingKey| #[trigger] has_key(less, key) == (has_key(entries, key) && key
        != entries[at].key) && (has_key(less, key) ==> value_of(less, key) == value_of(
        entries,
        key,
    )) by {
        if has_key(less, key) {
            let i = choose|i: int| 0 <= i < less.len() && (#[trigger] less[i]).key == key;
            let a = if i < at {
                i
            } else {
                i + 1
            };
            assert(entries[a].key == key);
            if a < at {
                assert(entries[a].key != entries[at].key);
            } else {
                assert(entries[at].key != entries[a].key);
            }
            lemma_entry_value(entries, a);
            lemma_entry_value(less, i);
        }
        if has_key(entries, key) && key != entries[at].key {
            let a = choose|i: int| 0 <= i < entries.len() && (#[trigger] entries[i]).key == key;
            let i = if a < at {
                a
            } else {
                a - 1
            };
            assert(less[i].key == key);
        }
    }
    assert(as_map(less) =~= as_map(entries).remove(entries[at].key)) by {
        assert forall|key: PendingKey|
            as_map(less).contains_key(key) == #[trigger] as_map(entries).remove(
                entries[at].key,
            ).contains_key(key) by {
            assert(has_key(less, key) == (has_key(entries, key) && key != entries[at].key));
        }
    }
}

impl View for PendingMap {
    type V = Map<PendingKey, PendingProbe>;

    closed spec fn view(&self) -> Map<PendingKey, PendingProbe> {
        as_map(self.entries@)
    }
}

impl PendingMap {
    /// Whether no key occurs twice.
    pub closed spec fn wf(self) -> bool {
        distinct_keys(self.entries@)
    }

    /// Nothing outstanding.
    pub fn new() -> (r: PendingMap)
        ensures
            r.wf(),
            r@ == Map::<PendingKey, PendingProbe>::empty(),
    {
        let r = PendingMap { entries: Vec::new() };
        assert(r@ =~= Map::<PendingKey, PendingProbe>::empty());
        r
    }

    /// The place of a key.
    fn find(&self, key: PendingKey) -> (r: Option<usize>)
        requires
            self.wf(),
        ensures
            match r {
                Some(i) => i < self.entries@.len() && self.entries@[i as int].key == key
                    && self@.contains_key(key) && self@[key] == self.entries@[i as int].probe,
                None => !self@.contains_key(key),
            },
    {
        let mut i: usize = 0;
        while i < self.entries.len()
            invariant
                self.wf(),
                i <= self.entries.len(),
                forall|j: int| 0 <= j < i ==> (#[trigger] self.entries@[j]).key != key,
            decreases self.entries.len() - i,
        {
            if self.entries[i].key == key {
                proof {
                    lemma_entry_value(self.entries@, i as int);
                }
                return Some(i);
            }
            i = i + 1;
        }
        None
    }

    /// How many probes are outstanding.
    pub fn len(&self) -> (r: usize)
        requires
            self.wf(),
        ensures
            r == self@.dom().len(),
            self@.dom().finite(),
    {
        proof {
            lemma_len(self.entries@);
        }
        self.entries.len()
    }

    /// Whether a key is outstanding.
    pub fn contains_key(&self, key: &PendingKey) -> (r: bool)
        requires
            self.wf(),
        ensures
            r == self@.contains_key(*key),
    {
        self.find(*key).is_some()
    }

    /// Registers a probe; it replaces one with the same key.
    pub fn insert(&mut self, key: PendingKey, probe: PendingProbe)
        requires
            old(self).wf(),
        ensures
            final(self).wf(),
            final(self)@ == old(self)@.insert(key, probe),
    {
        self.remove(&key);
        let ghost before = self.entries@;
        self.entries.push(PendingEntry { key, probe });
        proof {
            let after = self.entries@;
            assert forall|i: int| 0 <= i < before.len() implies (#[trigger] before[i]).key != key by {
                lemma_entry_value(before, i);
                assert(as_map(before).contains_key(before[i].key));
            }
            assert forall|i: int, j: int| 0 <= i < j < after.len() implies (
            #[trigger] after[i]).key != (#[trigger] after[j]).key by {
                if j < before.len() {
                    assert(before[i].key != before[j].key);
                }
            }
            assert forall|k: PendingKey| #[trigger] has_key(after, k) == (has_key(before, k) || k
                == key) && (has_key(before, k) ==> value_of(after, k) == value_of(before, k)) by {
                if has_key(before, k) {
                    let i = choose|i: int| 0 <= i < before.len() && (#[trigger] before[i]).key == k;
                    assert(after[i].key == k);
                    lemma_entry_value(before, i);
                    lemma_entry_value(after, i);
                }
                if k == key {
                    assert(after[before.len() as int].key == k);
                }
            }
            lemma_entry_value(after, before.len() as int);
            assert(as_map(after) =~= as_map(before).insert(key, probe)) by {
                assert forall|k: PendingKey| #[trigger]
                    as_map(after).contains_key(k) == as_map(before).insert(
                        key,
                        probe,
                    ).contains_key(k) by {
                    assert(has_key(after, k) == (has_key(before, k) || k == key));
                }
            }
            assert(as_map(before).insert(key, probe) =~= old(self)@.insert(key, probe));
        }
    }

    /// Takes a probe out.
    pub fn remove(&mut self, key: &PendingKey) -> (r: Option<PendingProbe>)
        requires
            old(self).wf(),
        ensures
            final(self).wf(),
            final(self)@ == old(self)@.remove(*key),
            r == (if old(self)@.contains_key(*key) {
                Some(old(self)@[*key])
            } else {
                None
            }),
    {
        match self.find(*key) {
            Some(i) => {
                proof {
                    lemma_remove(self.entries@, i as int);
                }
                let entry: PendingEntry = self.entries.remove(i);
                Some(entry.probe)
            },
            None => {
                assert(self@ =~= self@.remove(*key));
                None
            },
        }
    }

    /// The flow of the only outstanding probe of a kind to a target, or how
    /// many there are (none, or more than one).
    pub fn flows_of(&self, probe_id: ProbeId, target: IpAddr, is_pmtud: bool) -> (r: FlowsFound)
        requires
            self.wf(),
        ensures
            r == flows_in(self@, probe_id, target, is_pmtud),
    {
        let mut found: FlowsFound = FlowsFound::Absent;
        let mut i: usize = 0;
        let ghost mut first: int = 0;
        let ghost mut second: int = 0;
        while i < self.entries.len()
            invariant
                self.wf(),
                i <= self.entries.len(),
                found is Absent ==> forall|j: int|
                    0 <= j < i ==> !matches_kind(
                        #[trigger] self.entries@[j],
                        probe_id,
                        target,
                        is_pmtud,
                    ),
                found is One ==> 0 <= first < i && matches_kind(
                    self.entries@[first],
                    probe_id,
                    target,
                    is_pmtud,
                ) && self.entries@[first].key.flow_id == found->One_0 && forall|j: int|
                    0 <= j < i && j != first ==> !matches_kind(
                        #[trigger] self.entries@[j],
                        probe_id,
                        target,
                        is_pmtud,
                    ),
                found is Many ==> 0 <= first < second < i && matches_kind(
                    self.entries@[first],
                    probe_id,
                    target,
                    is_pmtud,
                ) && matches_kind(self.entries@[second], probe_id, target, is_pmtud),
            decreases self.entries.len() - i,
        {
            let key: PendingKey = self.entries[i].key;
            if key.probe_id == probe_id && key.target == target && key.is_pmtud == is_pmtud {
                match found {
                    FlowsFound::Absent => {
                        found = FlowsFound::One(key.flow_id);
                        proof {
                            first = i as int;
                        }
                    },
                    FlowsFound::One(_) => {
                        found = FlowsFound::Many;
                        proof {
                            second = i as int;
                        }
                    },
                    FlowsFound::Many => {},
                }
            }
            i = i + 1;
        }
        proof {
            self.lemma_flows(found, probe_id, target, is_pmtud, first, second);
        }
        found
    }

    /// What was counted in the entries is so in the map.
    proof fn lemma_flows(
        self,
        found: FlowsFound,
        probe_id: ProbeId,
        target: IpAddr,
        is_pmtud: bool,
        first: int,
        second: int,
    )
        requires
            self.wf(),
            found is Absent ==> forall|j: int|
                0 <= j < self.entries@.len() ==> !matches_kind(
                    #[trigger] self.entries@[j],
                    probe_id,
                    target,
                    is_pmtud,
                ),
            found is One ==> 0 <= first < self.entries@.len() && matches_kind(
                self.entries@[first],
                probe_id,
                target,
                is_pmtud,
            ) && self.entries@[first].key.flow_id == found->One_0 && forall|j: int|
                0 <= j < self.entries@.len() && j != first ==> !matches_kind(
                    #[trigger] self.entries@[j],
                    probe_id,
                    target,
                    is_pmtud,
                ),
            found is Many ==> 0 <= first < second < self.entries@.len() && matches_kind(
                self.entries@[first],
                probe_id,
                target,
                is_pmtud,
            ) && matches_kind(self.entries@[second], probe_id, target, is_pmtud),
        ensures
            found == flows_in(self@, probe_id, target, is_pmtud),
    {
        let map = self@;
        assert forall|flow: u8|
            #![trigger map.contains_key(flow_key(probe_id, flow, target, is_pmtud))]
            map.contains_key(flow_key(probe_id, flow, target, is_pmtud)) <==> exists|j: int|
                0 <= j < self.entries@.len() && (#[trigger] self.entries@[j]).key == flow_key(
                    probe_id,
                    flow,
                    target,
                    is_pmtud,
                ) by {}
        match found {
            FlowsFound::Absent => {
                assert forall|flow: u8|
                    !(#[trigger] map.contains_key(flow_key(probe_id, flow, target, is_pmtud))) by {
                    if map.contains_key(flow_key(probe_id, flow, target, is_pmtud)) {
                        let j = choose|j: int|
                            0 <= j < self.entries@.len() && (#[trigger] self.entries@[j]).key
                                == flow_key(probe_id, flow, target, is_pmtud);
                        assert(matches_kind(self.entries@[j], probe_id, target, is_pmtud));
                    }
                }
            },
            FlowsFound::One(f) => {
                assert(self.entries@[first].key == flow_key(probe_id, f, target, is_pmtud));
                assert(map.contains_key(flow_key(probe_id, f, target, is_pmtud)));
                assert(only_flow(map, probe_id, target, is_pmtud, f)) by {
                    assert forall|flow: u8| #[trigger]
                        map.contains_key(
                            flow_key(probe_id, flow, target, is_pmtud),
                        ) implies flow == f by {
                        let j = choose|j: int|
                            0 <= j < self.entries@.len() && (#[trigger] self.entries@[j]).key
                                == flow_key(probe_id, flow, target, is_pmtud);
                        assert(matches_kind(self.entries@[j], probe_id, target, is_pmtud));
                        assert(j == first);
                    }
                }
                let g = choose|g: u8| only_flow(map, probe_id, target, is_pmtud, g);
                assert(map.contains_key(flow_key(probe_id, g, target, is_pmtud)));
                assert(g == f);
            },
            FlowsFound::Many => {
                let f = self.entries@[first].key.flow_id;
                let g = self.entries@[second].key.flow_id;
                assert(self.entries@[first].key == flow_key(probe_id, f, target, is_pmtud));
                assert(self.entries@[second].key == flow_key(probe_id, g, target, is_pmtud));
                assert(map.contains_key(flow_key(probe_id, f, target, is_pmtud)));
                assert(map.contains_key(flow_key(probe_id, g, target, is_pmtud)));
                assert(self.entries@[first].key != self.entries@[second].key);
                assert forall|h: u8| !(#[trigger] only_flow(map, probe_id, target, is_pmtud, h)) by {
                    if only_flow(map, probe_id, target, is_pmtud, h) {
                        assert(f == h);
                        assert(g == h);
                    }
                }
            },
        }
    }

    /// Takes out every probe that was sent more than `timeout` before `now`.
    pub fn take_expired(&mut self, now: u64, timeout: u64) -> (r: Vec<PendingEntry>)
        requires
            old(self).wf(),
        ensures
            final(self).wf(),
            distinct_keys(r@),
            forall|key: PendingKey| #[trigger]
                has_key(r@, key) <==> old(self)@.contains_key(key) && overdue(
                    old(self)@[key],
                    now,
                    timeout,
                ),
            forall|key: PendingKey| #[trigger]
                has_key(r@, key) ==> value_of(r@, key) == old(self)@[key],
            forall|key: PendingKey| #[trigger]
                final(self)@.contains_key(key) <==> old(self)@.contains_key(key) && !overdue(
                    old(self)@[key],
                    now,
                    timeout,
                ),
            forall|key: PendingKey| #[trigger]
                final(self)@.contains_key(key) ==> final(self)@[key] == old(self)@[key],
    {
        let mut kept: Vec<PendingEntry> = Vec::new();
        let mut gone: Vec<PendingEntry> = Vec::new();
        let ghost all = self.entries@;
        let mut i: usize = 0;
        while i < self.entries.len()
            invariant
                i <= self.entries.len(),
                all == self.entries@,
                distinct_keys(all),
                part_of(kept@, all, i as int, now, timeout, false),
                part_of(gone@, all, i as int, now, timeout, true),
            decreases self.entries.len() - i,
        {
            let entry: PendingEntry = self.entries[i];
            let passed: u64 = if now >= entry.probe.sent_at {
                now - entry.probe.sent_at
            } else {
                0
            };
            let ghost kept_before = kept@;
            let ghost gone_before = gone@;
            if passed > timeout {
                gone.push(entry);
                proof {
                    lemma_part_push(gone_before, all, i as int, now, timeout, true);
                    lemma_part_skip(kept_before, all, i as int, now, timeout, false);
                }
            } else {
                kept.push(entry);
                proof {
                    lemma_part_push(kept_before, all, i as int, now, timeout, false);
                    lemma_part_skip(gone_before, all, i as int, now, timeout, true);
                }
            }
            i = i + 1;
        }
        self.entries = kept;
        proof {
            lemma_part_map(kept@, all, now, timeout, false);
            lemma_part_map(gone@, all, now, timeout, true);
            assert forall|key: PendingKey| #[trigger]
                self@.contains_key(key) <==> old(self)@.contains_key(key) && !overdue(
                    old(self)@[key],
                    now,
                    timeout,
                ) by {
                assert(has_key(kept@, key) == self@.contains_key(key));
            }
            assert forall|key: PendingKey| #[trigger] self@.contains_key(key) implies self@[key]
                == old(self)@[key] by {
                assert(has_key(kept@, key));
            }
        }
        gone
    }

    /// Takes out every probe.
    pub fn drain(&mut self) -> (r: Vec<PendingEntry>)
        requires
            old(self).wf(),
        ensures
            final(self).wf(),
            final(self)@ == Map::<PendingKey, PendingProbe>::empty(),
            distinct_keys(r@),
            as_map(r@) == old(self)@,
    {
        let mut all: Vec<PendingEntry> = Vec::new();
        std::mem::swap(&mut all, &mut self.entries);
        assert(self@ =~= Map::<PendingKey, PendingProbe>::empty());
        all
    }
}

/// Whether a probe has been outstanding for too long.
pub open spec fn overdue(probe: PendingProbe, now: u64, timeout: u64) -> bool {
    now - probe.sent_at > timeout
}

/// Whether `part` is those of the first `n` entries that are overdue, or
/// those that are not.
spec fn part_of(
    part: Seq<PendingEntry>,
    all: Seq<PendingEntry>,
    n: int,
    now: u64,
    timeout: u64,
    late: bool,
) -> bool {
    &&& forall|i: int|
        0 <= i < part.len() ==> exists|j: int|
            0 <= j < n && all[j] == #[trigger] part[i] && overdue(part[i].probe, now, timeout)
                == late
    &&& forall|j: int|
        0 <= j < n && overdue((#[trigger] all[j]).probe, now, timeout) == late ==> exists|i: int|
            0 <= i < part.len() && #[trigger] part[i] == all[j]
    &&& distinct_keys(part)
}

proof fn lemma_part_push(
    part: Seq<PendingEntry>,
    all: Seq<PendingEntry>,
    n: int,
    now: u64,
    timeout: u64,
    late: bool,
)
    requires
        part_of(part, all, n, now, timeout, late),
        distinct_keys(all),
        0 <= n < all.len(),
        overdue(all[n].probe, now, timeout) == late,
    ensures
        part_of(part.push(all[n]), all, n + 1, now, timeout, late),
{
    let more = part.push(all[n]);
    assert forall|i: int| 0 <= i < more.len() implies exists|j: int|
        0 <= j < n + 1 && all[j] == #[trigger] more[i] && overdue(more[i].probe, now, timeout)
            == late by {
        if i < part.len() {
            assert(more[i] == part[i]);
            let j = choose|j: int|
                0 <= j < n && all[j] == part[i] && overdue(part[i].probe, now, timeout) == late;
            assert(all[j] == more[i]);
        } else {
            assert(all[n] == more[i]);
        }
    }
    assert forall|j: int|
        0 <= j < n + 1 && overdue((#[trigger] all[j]).probe, now, timeout) == late implies exists|
        i: int,
    | 0 <= i < more.len() && #[trigger] more[i] == all[j] by {
        if j < n {
            let i = choose|i: int| 0 <= i < part.len() && #[trigger] part[i] == all[j];
            assert(more[i] == all[j]);
        } else {
            assert(more[part.len() as int] == all[j]);
        }
    }
    assert forall|i: int, k: int| 0 <= i < k < more.len() implies (#[trigger] more[i]).key != (
    #[trigger] more[k]).key by {
        if k < part.len() {
            assert(part[i].key != part[k].key);
        } else {
            assert(more[i] == part[i]);
            let j = choose|j: int|
                0 <= j < n && all[j] == part[i] && overdue(part[i].probe, now, timeout) == late;
            assert(all[j].key != all[n].key);
        }
    }
}

proof fn lemma_part_skip(
    part: Seq<PendingEntry>,
    all: Seq<PendingEntry>,
    n: int,
    now: u64,
    timeout: u64,
    late: bool,
)
    requires
        part_of(part, all, n, now, timeout, late),
        0 <= n < all.len(),
        overdue(all[n].probe, now, timeout) != late,
    ensures
        part_of(part, all, n + 1, now, timeout, late),
{
    assert forall|i: int| 0 <= i < part.len() implies exists|j: int|
        0 <= j < n + 1 && all[j] == #[trigger] part[i] && overdue(part[i].probe, now, timeout)
            == late by {
        let j = choose|j: int|
            0 <= j < n && all[j] == part[i] && overdue(part[i].probe, now, timeout) == late;
        assert(all[j] == part[i]);
    }
}

proof fn lemma_part_map(
    part: Seq<PendingEntry>,
    all: Seq<PendingEntry>,
    now: u64,
    timeout: u64,
    late: bool,
)
    requires
        part_of(part, all, all.len() as int, now, timeout, late),
        distinct_keys(all),
    ensures
        forall|key: PendingKey| #[trigger]
            has_key(part, key) <==> has_key(all, key) && overdue(value_of(all, key), now, timeout)
                == late,
        forall|key: PendingKey| #[trigger]
            has_key(part, key) ==> value_of(part, key) == value_of(all, key),
{
    assert forall|key: PendingKey| #[trigger]
        has_key(part, key) implies has_key(all, key) && overdue(value_of(all, key), now, timeout)
        == late && value_of(part, key) == value_of(all, key) by {
        let i = choose|i: int| 0 <= i < part.len() && (#[trigger] part[i]).key == key;
        let j = choose|j: int|
            0 <= j < all.len() && all[j] == part[i] && overdue(part[i].probe, now, timeout) == late;
        assert(all[j].key == key);
        lemma_entry_value(all, j);
        lemma_entry_value(part, i);
    }
    assert forall|key: PendingKey|
        has_key(all, key) && overdue(value_of(all, key), now, timeout)
            == late implies #[trigger] has_key(part, key) by {
        let j = choose|j: int| 0 <= j < all.len() && (#[trigger] all[j]).key == key;
        lemma_entry_value(all, j);
        let i = choose|i: int| 0 <= i < part.len() && #[trigger] part[i] == all[j];
        assert(part[i].key == key);
    }
}

/// Distinct entries are as many as their keys.
proof fn lemma_len(entries: Seq<PendingEntry>)
    requires
        distinct_keys(entries),
    ensures
        as_map(entries).dom().finite(),
        as_map(entries).dom().len() == entries.len(),
    decreases entries.len(),
{
    if entries.len() == 0 {
        assert(as_map(entries).dom() =~= Set::<PendingKey>::empty());
    } else {
        let at = entries.len() - 1;
        lemma_remove(entries, at);
        lemma_len(entries.remove(at));
        lemma_entry_value(entries, at);
        assert(as_map(entries).dom() =~= as_map(entries.remove(at)).dom().insert(entries[at].key));
    }
}

/// How many flows have an outstanding probe of a kind, and which if only one.
#[derive(Clone, Copy, Debug, PartialEq, Eq, Structural)]
pub enum FlowsFound {
    Absent,
    One(u8),
    Many,
}

/// The key of a probe on a flow.
pub open spec fn flow_key(
    probe_id: ProbeId,
    flow_id: u8,
    target: IpAddr,
    is_pmtud: bool,
) -> PendingKey {
    PendingKey { probe_id, flow_id, target, is_pmtud }
}

/// Whether an entry is of this probe, target and kind, on whatever flow.
spec fn matches_kind(
    entry: PendingEntry,
    probe_id: ProbeId,
    target: IpAddr,
    is_pmtud: bool,
) -> bool {
    entry.key.probe_id == probe_id && entry.key.target == target && entry.key.is_pmtud == is_pmtud
}

/// Whether a flow is the only one with such a probe.
pub open spec fn only_flow(
    map: Map<PendingKey, PendingProbe>,
    probe_id: ProbeId,
    target: IpAddr,
    is_pmtud: bool,
    flow: u8,
) -> bool {
    &&& map.contains_key(flow_key(probe_id, flow, target, is_pmtud))
    &&& forall|other: u8| #[trigger]
        map.contains_key(flow_key(probe_id, other, target, is_pmtud)) ==> other == flow
}

/// How many flows have such a probe, and which if only one.
pub open spec fn flows_in(
    map: Map<PendingKey, PendingProbe>,
    probe_id: ProbeId,
    target: IpAddr,
    is_pmtud: bool,
) -> FlowsFound {
    if forall|flow: u8|
        !(#[trigger] map.contains_key(flow_key(probe_id, flow, target, is_pmtud))) {
        FlowsFound::Absent
    } else if exists|flow: u8| only_flow(map, probe_id, target, is_pmtud, flow) {
        FlowsFound::One(choose|flow: u8| only_flow(map, probe_id, target, is_pmtud, flow))
    } else {
        FlowsFound::Many
    }
}

/// A probe is taken as lost once it has been out for longer than the timeout,
/// and stays as it is until then.
pub proof fn law_taken_when_late(
    map: &mut PendingMap,
    now: u64,
    timeout: u64,
    r: Vec<PendingEntry>,
    key: PendingKey,
    probe: PendingProbe,
)
    requires
        call_ensures(PendingMap::take_expired, (map, now, timeout), r),
        old(map)@.contains_key(key),
        old(map)@[key] == probe,
    ensures
        probe.sent_at + timeout < now ==> has_key(r@, key) && value_of(r@, key) == probe && !final(map)@.contains_key(key),
        probe.sent_at + timeout >= now ==> !has_key(r@, key) && final(map)@.contains_key(key)
            && final(map)@[key] == probe,
{
}

/// What was put in under a key is what comes out under it, once, and what is
/// there under other keys stays.
pub proof fn law_put_in_and_taken_out(
    into: &mut PendingMap,
    out: &mut PendingMap,
    key: PendingKey,
    other: PendingKey,
    probe: PendingProbe,
    r: Option<PendingProbe>,
)
    requires
        call_ensures(PendingMap::insert, (into, key, probe), ()),
        call_ensures(PendingMap::remove, (out, &key), r),
        old(out)@ == final(into)@,
        other != key,
    ensures
        r == Some(probe),
        !final(out)@.contains_key(key),
        final(into)@.contains_key(other) == old(into)@.contains_key(other),
        final(out)@.contains_key(other) == old(into)@.contains_key(other),
        old(into)@.contains_key(other) ==> final(out)@[other] == old(into)@[other],
{
}

/// At the end everything is handed out and nothing is left.
pub proof fn law_emptied_at_the_end(
    map: &mut PendingMap,
    r: Vec<PendingEntry>,
    key: PendingKey,
)
    requires
        call_ensures(PendingMap::drain, (map,), r),
    ensures
        !final(map)@.contains_key(key),
        has_key(r@, key) <==> old(map)@.contains_key(key),
        old(map)@.contains_key(key) ==> value_of(r@, key) == old(map)@[key],
{
    assert(as_map(r@).contains_key(key) == has_key(r@, key));
    assert(as_map(r@).contains_key(key) ==> as_map(r@)[key] == value_of(r@, key));
}

/// Which flow a probe without its port belongs to is known if it is out in
/// one flow only.
pub proof fn law_flow_known_if_alone(
    map: &PendingMap,
    id: ProbeId,
    target: IpAddr,
    sized: bool,
    r: FlowsFound,
    flow: u8,
    other: u8,
)
    requires
        call_ensures(PendingMap::flows_of, (map, id, target, sized), r),
        map@.contains_key(
            PendingKey { probe_id: id, flow_id: flow, target, is_pmtud: sized },
        ),
    ensures
        !(r is Absent),
        r matches FlowsFound::One(f) ==> f == flow,
        other != flow && map@.contains_key(
            PendingKey { probe_id: id, flow_id: other, target, is_pmtud: sized },
        ) ==> (r is Many),
{
    assert(map@.contains_key(flow_key(id, flow, target, sized)));
    if other != flow && map@.contains_key(flow_key(id, other, target, sized)) {
        assert(forall|f: u8| !only_flow(map@, id, target, sized, f));
    }
}

} // verus!
