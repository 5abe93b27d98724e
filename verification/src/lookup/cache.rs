//! Per-address result caches with an age limit and a size limit.

use crate::addr::IpAddr;
use vstd::prelude::*;

verus! {

/// Maximum number of entries of a cache before eviction starts.
pub const ENRICHMENT_CACHE_CAP: usize = 10_000;

/// A cached result. Times are readings of one monotonic clock.
pub struct CacheEntry<V> {
    pub ip: IpAddr,
    pub value: V,
    pub cached_at: u64,
}

/// How long ago an entry was stored.
pub open spec fn age(cached_at: u64, now: u64) -> int {
    if now >= cached_at {
        now - cached_at
    } else {
        0
    }
}

/// Whether an entry can still be used.
pub open spec fn fresh<V>(entry: CacheEntry<V>, now: u64, ttl: u64) -> bool {
    age(entry.cached_at, now) < ttl
}

/// Whether no address has two entries.
pub open spec fn distinct_ips<V>(entries: Seq<CacheEntry<V>>) -> bool {
    forall|i: int, j: int|
        0 <= i < j < entries.len() ==> (#[trigger] entries[i]).ip != (#[trigger] entries[j]).ip
}

/// The entries that can still be used, in their order.
pub open spec fn fresh_entries<V>(entries: Seq<CacheEntry<V>>, now: u64, ttl: u64) -> Seq<
    CacheEntry<V>,
>
    decreases entries.len(),
{
    if entries.len() == 0 {
        Seq::empty()
    } else {
        let rest = fresh_entries(entries.drop_last(), now, ttl);
        if fresh(entries.last(), now, ttl) {
            rest.push(entries.last())
        } else {
            rest
        }
    }
}

/// An entry is among the fresh ones exactly if it is there and fresh.
pub proof fn lemma_fresh_entries_contains<V>(
    entries: Seq<CacheEntry<V>>,
    now: u64,
    ttl: u64,
    e: CacheEntry<V>,
)
    ensures
        fresh_entries(entries, now, ttl).contains(e) <==> entries.contains(e) && fresh(e, now, ttl),
    decreases entries.len(),
{
    let all = fresh_entries(entries, now, ttl);
    if entries.len() > 0 {
        let init = entries.drop_last();
        let rest = fresh_entries(init, now, ttl);
        lemma_fresh_entries_contains(init, now, ttl, e);
        if all.contains(e) {
            let i = choose|i: int| 0 <= i < all.len() && all[i] == e;
            if i < rest.len() {
                assert(rest[i] == e);
                assert(rest.contains(e));
                let j = choose|j: int| 0 <= j < init.len() && init[j] == e;
                assert(entries[j] == e);
            } else {
                assert(entries[entries.len() - 1] == e);
            }
        }
        if entries.contains(e) && fresh(e, now, ttl) {
            let j = choose|j: int| 0 <= j < entries.len() && entries[j] == e;
            if j < init.len() {
                assert(init[j] == e);
                let i = choose|i: int| 0 <= i < rest.len() && rest[i] == e;
                assert(all[i] == e);
            } else {
                assert(all[all.len() - 1] == e);
            }
        }
    }
}

/// The fresh ones of distinct entries are distinct.
proof fn lemma_fresh_entries_distinct<V>(entries: Seq<CacheEntry<V>>, now: u64, ttl: u64)
    requires
        distinct_ips(entries),
    ensures
        distinct_ips(fresh_entries(entries, now, ttl)),
    decreases entries.len(),
{
    if entries.len() > 0 {
        let init = entries.drop_last();
        let rest = fresh_entries(init, now, ttl);
        assert(distinct_ips(init)) by {
            assert forall|i: int, j: int| 0 <= i < j < init.len() implies (#[trigger] init[i]).ip
                != (#[trigger] init[j]).ip by {
                assert(init[i] == entries[i] && init[j] == entries[j]);
            }
        }
        lemma_fresh_entries_distinct(init, now, ttl);
        assert forall|i: int, j: int|
            0 <= i < j < fresh_entries(entries, now, ttl).len() implies (
        #[trigger] fresh_entries(entries, now, ttl)[i]).ip != (#[trigger] fresh_entries(
            entries,
            now,
            ttl,
        )[j]).ip by {
            if j == rest.len() {
                let e = rest[i];
                assert(rest.contains(e));
                lemma_fresh_entries_contains(init, now, ttl, e);
                let k = choose|k: int| 0 <= k < init.len() && init[k] == e;
                assert(entries[k] == e);
                assert(entries[k].ip != entries[entries.len() - 1].ip);
            }
        }
    }
}

/// Drops the entries that can no longer be used.
fn drop_expired<V>(entries: &mut Vec<CacheEntry<V>>, now: u64, ttl: u64)
    ensures
        final(entries)@ == fresh_entries(old(entries)@, now, ttl),
{
    let ghost start = entries@;
    let mut work: Vec<CacheEntry<V>> = Vec::new();
    std::mem::swap(&mut work, entries);
    let mut kept: Vec<CacheEntry<V>> = Vec::new();
    let ghost mut tail: Seq<CacheEntry<V>> = Seq::empty();
    proof {
        assert(start.take(start.len() as int) =~= start);
        assert(fresh_entries(work@, now, ttl) + tail =~= fresh_entries(start, now, ttl));
    }
    while work.len() > 0
        invariant
            fresh_entries(work@, now, ttl) + tail == fresh_entries(start, now, ttl),
            kept@.len() == tail.len(),
            forall|i: int| 0 <= i < tail.len() ==> #[trigger] tail[i] == kept@[tail.len() - 1 - i],
        decreases work.len(),
    {
        let ghost before = work@;
        let ghost old_tail = tail;
        let entry: CacheEntry<V> = work.pop().unwrap();
        assert(work@ =~= before.drop_last());
        let passed: u64 = if now >= entry.cached_at {
            now - entry.cached_at
        } else {
            0
        };
        if passed < ttl {
            proof {
                tail = seq![entry] + tail;
                assert(fresh_entries(work@, now, ttl) + tail =~= fresh_entries(before, now, ttl)
                    + old_tail);
            }
            kept.push(entry);
        }
    }
    let ghost all = tail;
    let ghost mut done: int = 0;
    proof {
        assert(fresh_entries(work@, now, ttl) =~= Seq::empty());
        assert(all =~= fresh_entries(start, now, ttl));
    }
    while kept.len() > 0
        invariant
            0 <= done <= all.len(),
            kept@.len() == all.len() - done,
            entries@ =~= all.take(done),
            forall|i: int|
                done <= i < all.len() ==> #[trigger] all[i] == kept@[all.len() - 1 - i],
        decreases kept.len(),
    {
        let entry: CacheEntry<V> = kept.pop().unwrap();
        assert(entry == all[done]);
        entries.push(entry);
        proof {
            done = done + 1;
        }
    }
    assert(all.take(all.len() as int) =~= all);
}

/// The place of an entry that is at least as old as every other.
fn oldest<V>(entries: &Vec<CacheEntry<V>>) -> (r: usize)
    requires
        entries@.len() > 0,
    ensures
        r < entries@.len(),
        forall|i: int|
            0 <= i < entries@.len() ==> entries@[r as int].cached_at <= (
            #[trigger] entries@[i]).cached_at,
{
    let mut best: usize = 0;
    let mut i: usize = 1;
    while i < entries.len()
        invariant
            best < i <= entries.len(),
            forall|j: int|
                0 <= j < i ==> entries@[best as int].cached_at <= (#[trigger] entries@[j]).cached_at,
        decreases entries.len() - i,
    {
        if entries[i].cached_at < entries[best].cached_at {
            best = i;
        }
        i = i + 1;
    }
    best
}

/// What pruning leaves of `all`, the entries that are still fresh: all of
/// them if they are within the limit, else as many as the limit allows, no
/// one of which is older than one that went.
pub open spec fn pruned<V>(all: Seq<CacheEntry<V>>, kept: Seq<CacheEntry<V>>) -> bool {
    &&& all.len() <= ENRICHMENT_CACHE_CAP ==> kept == all
    &&& all.len() > ENRICHMENT_CACHE_CAP ==> kept.len() == ENRICHMENT_CACHE_CAP
    &&& forall|e: CacheEntry<V>| #[trigger] kept.contains(e) ==> all.contains(e)
    &&& forall|e: CacheEntry<V>, k: CacheEntry<V>| #[trigger]
        all.contains(e) && !kept.contains(e) && #[trigger] kept.contains(k) ==> e.cached_at
            <= k.cached_at
}

/// Prunes a cache: entries older than `ttl` go; if more than the limit are
/// left, the oldest go too. Which of equally old ones go is open.
pub fn prune_cache<V>(entries: &mut Vec<CacheEntry<V>>, now: u64, ttl: u64)
    requires
        distinct_ips(old(entries)@),
    ensures
        pruned(fresh_entries(old(entries)@, now, ttl), final(entries)@),
        distinct_ips(final(entries)@),
{
    let ghost all = fresh_entries(entries@, now, ttl);
    proof {
        lemma_fresh_entries_distinct(entries@, now, ttl);
    }
    drop_expired(entries, now, ttl);
    while entries.len() > ENRICHMENT_CACHE_CAP
        invariant
            all.len() <= ENRICHMENT_CACHE_CAP ==> entries@ == all,
            all.len() > ENRICHMENT_CACHE_CAP ==> entries@.len() >= ENRICHMENT_CACHE_CAP,
            distinct_ips(entries@),
            forall|e: CacheEntry<V>| #[trigger] entries@.contains(e) ==> all.contains(e),
            forall|e: CacheEntry<V>, k: CacheEntry<V>| #[trigger]
                all.contains(e) && !entries@.contains(e) && #[trigger] entries@.contains(k)
                    ==> e.cached_at <= k.cached_at,
        decreases entries.len(),
    {
        let at: usize = oldest(entries);
        let ghost before = entries@;
        let gone: CacheEntry<V> = entries.remove(at);
        proof {
            assert(entries@ =~= before.remove(at as int));
            assert forall|e: CacheEntry<V>| #[trigger] entries@.contains(e) implies before.contains(
                e,
            ) by {
                let i = choose|i: int| 0 <= i < entries@.len() && entries@[i] == e;
                assert(before[if i < at {
                    i
                } else {
                    i + 1
                }] == e);
            }
            assert forall|e: CacheEntry<V>| #[trigger]
                before.contains(e) && e != gone implies entries@.contains(e) by {
                let i = choose|i: int| 0 <= i < before.len() && before[i] == e;
                assert(entries@[if i < at {
                    i
                } else {
                    i - 1
                }] == e);
            }
            assert(before.contains(gone));
            assert forall|e: CacheEntry<V>, k: CacheEntry<V>| #[trigger]
                all.contains(e) && !entries@.contains(e) && #[trigger] entries@.contains(
                    k,
                ) implies e.cached_at <= k.cached_at by {
                assert(before.contains(k));
                let i = choose|i: int| 0 <= i < before.len() && before[i] == k;
                if before.contains(e) {
                    assert(e == gone);
                    assert(before[at as int].cached_at <= before[i].cached_at);
                }
            }
            assert forall|i: int, j: int| 0 <= i < j < entries@.len() implies (
            #[trigger] entries@[i]).ip != (#[trigger] entries@[j]).ip by {
                let a = if i < at {
                    i
                } else {
                    i + 1
                };
                let b = if j < at {
                    j
                } else {
                    j + 1
                };
                assert(entries@[i] == before[a] && entries@[j] == before[b]);
            }
        }
    }
}

/// The place of the entry of an address.
pub fn find_entry<V>(entries: &Vec<CacheEntry<V>>, ip: IpAddr) -> (r: Option<usize>)
    ensures
        match r {
            Some(i) => i < entries@.len() && entries@[i as int].ip == ip,
            None => forall|i: int| 0 <= i < entries@.len() ==> (#[trigger] entries@[i]).ip != ip,
        },
{
    let mut i: usize = 0;
    while i < entries.len()
        invariant
            i <= entries.len(),
            forall|j: int| 0 <= j < i ==> (#[trigger] entries@[j]).ip != ip,
        decreases entries.len() - i,
    {
        if entries[i].ip == ip {
            return Some(i);
        }
        i = i + 1;
    }
    None
}

/// Looks an address up: the cached result if there is one and it is younger
/// than `ttl`.
pub fn cached<'a, V>(entries: &'a Vec<CacheEntry<V>>, ip: IpAddr, now: u64, ttl: u64) -> (r: Option<
    &'a V,
>)
    requires
        distinct_ips(entries@),
    ensures
        match r {
            Some(v) => exists|i: int|
                0 <= i < entries@.len() && (#[trigger] entries@[i]).ip == ip && fresh(
                    entries@[i],
                    now,
                    ttl,
                ) && entries@[i].value == *v,
            None => forall|i: int|
                0 <= i < entries@.len() && (#[trigger] entries@[i]).ip == ip ==> !fresh(
                    entries@[i],
                    now,
                    ttl,
                ),
        },
{
    match find_entry(entries, ip) {
        Some(i) => {
            let passed: u64 = if now >= entries[i].cached_at {
                now - entries[i].cached_at
            } else {
                0
            };
            if passed < ttl {
                assert(fresh(entries@[i as int], now, ttl));
                Some(&entries[i].value)
            } else {
                proof {
                    assert forall|j: int|
                        0 <= j < entries@.len() && (#[trigger] entries@[j]).ip == ip implies !fresh(
                        entries@[j],
                        now,
                        ttl,
                    ) by {
                        if j != i {
                            assert(entries@[j].ip != entries@[i as int].ip);
                        }
                    }
                }
                None
            }
        },
        None => None,
    }
}

/// The entries with the one of `entry`'s address replaced, or with `entry`
/// added.
pub open spec fn with_entry<V>(entries: Seq<CacheEntry<V>>, entry: CacheEntry<V>) -> Seq<
    CacheEntry<V>,
>
    decreases entries.len(),
{
    if entries.len() == 0 {
        seq![entry]
    } else if entries[0].ip == entry.ip {
        seq![entry] + entries.skip(1)
    } else {
        seq![entries[0]] + with_entry(entries.skip(1), entry)
    }
}

/// Where an address has its entry, `with_entry` writes there.
proof fn lemma_with_entry_at<V>(entries: Seq<CacheEntry<V>>, entry: CacheEntry<V>, at: int)
    requires
        0 <= at < entries.len(),
        entries[at].ip == entry.ip,
        forall|i: int| 0 <= i < at ==> (#[trigger] entries[i]).ip != entry.ip,
    ensures
        with_entry(entries, entry) == entries.update(at, entry),
    decreases at,
{
    if at > 0 {
        lemma_with_entry_at(entries.skip(1), entry, at - 1);
        assert(seq![entries[0]] + entries.skip(1).update(at - 1, entry) =~= entries.update(
            at,
            entry,
        ));
    } else {
        assert(seq![entry] + entries.skip(1) =~= entries.update(0, entry));
    }
}

/// Where an address has none, `with_entry` appends.
proof fn lemma_with_entry_new<V>(entries: Seq<CacheEntry<V>>, entry: CacheEntry<V>)
    requires
        forall|i: int| 0 <= i < entries.len() ==> (#[trigger] entries[i]).ip != entry.ip,
    ensures
        with_entry(entries, entry) == entries.push(entry),
    decreases entries.len(),
{
    if entries.len() > 0 {
        lemma_with_entry_new(entries.skip(1), entry);
        assert(seq![entries[0]] + entries.skip(1).push(entry) =~= entries.push(entry));
    } else {
        assert(seq![entry] =~= entries.push(entry));
    }
}

/// After storing a result the address has exactly that result, and every
/// other address has what it had.
pub proof fn law_stored_is_cached<V>(entries: Seq<CacheEntry<V>>, entry: CacheEntry<V>)
    requires
        distinct_ips(entries),
    ensures
        distinct_ips(with_entry(entries, entry)),
        with_entry(entries, entry).contains(entry),
        forall|e: CacheEntry<V>| #[trigger]
            with_entry(entries, entry).contains(e) && e.ip == entry.ip ==> e == entry,
        forall|e: CacheEntry<V>|
            e.ip != entry.ip ==> (#[trigger] with_entry(entries, entry).contains(e)
                <==> entries.contains(e)),
{
    let all = with_entry(entries, entry);
    let at = if exists|i: int| 0 <= i < entries.len() && (#[trigger] entries[i]).ip == entry.ip {
        let at = choose|i: int| 0 <= i < entries.len() && (#[trigger] entries[i]).ip == entry.ip;
        assert forall|j: int| 0 <= j < at implies (#[trigger] entries[j]).ip != entry.ip by {
            assert(entries[j].ip != entries[at].ip);
        }
        lemma_with_entry_at(entries, entry, at);
        at
    } else {
        lemma_with_entry_new(entries, entry);
        entries.len() as int
    };
    assert(all[at] == entry);
    assert forall|i: int| 0 <= i < all.len() && i != at implies #[trigger] all[i] == entries[i]
        && entries[i].ip != entry.ip by {
        if at < entries.len() {
            if i < at {
                assert(entries[i].ip != entries[at].ip);
            } else {
                assert(entries[at].ip != entries[i].ip);
            }
        }
    }
    assert forall|e: CacheEntry<V>| e.ip != entry.ip implies (#[trigger] all.contains(e)
        <==> entries.contains(e)) by {
        if all.contains(e) {
            let i = choose|i: int| 0 <= i < all.len() && all[i] == e;
            assert(entries[i] == e);
        }
        if entries.contains(e) {
            let i = choose|i: int| 0 <= i < entries.len() && entries[i] == e;
            assert(all[i] == e);
        }
    }
}

/// Stores a result: it replaces the one that the address had.
pub fn store<V>(entries: &mut Vec<CacheEntry<V>>, entry: CacheEntry<V>)
    requires
        distinct_ips(old(entries)@),
    ensures
        final(entries)@ == with_entry(old(entries)@, entry),
        distinct_ips(final(entries)@),
{
    let ghost before = entries@;
    proof {
        law_stored_is_cached(before, entry);
    }
    match find_entry(entries, entry.ip) {
        Some(i) => {
            proof {
                assert forall|j: int| 0 <= j < i implies (#[trigger] before[j]).ip != entry.ip by {
                    assert(before[j].ip != before[i as int].ip);
                }
                lemma_with_entry_at(before, entry, i as int);
            }
            entries.set(i, entry);
        },
        None => {
            proof {
                lemma_with_entry_new(before, entry);
            }
            entries.push(entry);
        },
    }
}

/// Stores a result and prunes the cache.
pub fn remember<V>(entries: &mut Vec<CacheEntry<V>>, entry: CacheEntry<V>, now: u64, ttl: u64)
    requires
        distinct_ips(old(entries)@),
    ensures
        pruned(fresh_entries(with_entry(old(entries)@, entry), now, ttl), final(entries)@),
        distinct_ips(final(entries)@),
{
    store(entries, entry);
    prune_cache(entries, now, ttl);
}

/// Pruning removes every entry that is past the age limit, keeps the size
/// within the limit, and below the limit removes nothing else.
pub proof fn law_prune_bounds<V>(
    entries: Seq<CacheEntry<V>>,
    kept: Seq<CacheEntry<V>>,
    now: u64,
    ttl: u64,
)
    requires
        pruned(fresh_entries(entries, now, ttl), kept),
    ensures
        kept.len() <= ENRICHMENT_CACHE_CAP,
        forall|e: CacheEntry<V>| #[trigger] kept.contains(e) ==> fresh(e, now, ttl),
        fresh_entries(entries, now, ttl).len() <= ENRICHMENT_CACHE_CAP ==> forall|
            e: CacheEntry<V>,
        | #[trigger]
            entries.contains(e) && fresh(e, now, ttl) ==> kept.contains(e),
{
    assert forall|e: CacheEntry<V>| #[trigger] kept.contains(e) implies fresh(e, now, ttl) by {
        lemma_fresh_entries_contains(entries, now, ttl, e);
    }
    if fresh_entries(entries, now, ttl).len() <= ENRICHMENT_CACHE_CAP {
        assert forall|e: CacheEntry<V>| #[trigger] entries.contains(e) && fresh(e, now, ttl) implies
        kept.contains(e) by {
            lemma_fresh_entries_contains(entries, now, ttl, e);
        }
    }
}

/// What is stored is found again for as long as it may be kept, and not a
/// moment longer.
pub proof fn law_cached_while_young<V>(
    storing: &mut Vec<CacheEntry<V>>,
    entry: CacheEntry<V>,
    entries: &Vec<CacheEntry<V>>,
    now: u64,
    ttl: u64,
    r: Option<&V>,
)
    requires
        call_ensures(store::<V>, (storing, entry), ()),
        distinct_ips(old(storing)@),
        entries@ == final(storing)@,
        call_ensures(cached::<V>, (entries, entry.ip, now, ttl), r),
        entry.cached_at <= now,
    ensures
        now - entry.cached_at < ttl ==> (r matches Some(v) && *v == entry.value),
        now - entry.cached_at >= ttl ==> r is None,
        forall|e: CacheEntry<V>|
            e.ip != entry.ip ==> (#[trigger] final(storing)@.contains(e) <==> old(
                storing)@.contains(e)),
{
    law_stored_is_cached(old(storing)@, entry);
    let i = choose|i: int| 0 <= i < entries@.len() && entries@[i] == entry;
    assert(entries@[i].ip == entry.ip);
    if now - entry.cached_at < ttl {
        assert(fresh(entries@[i], now, ttl));
        if r is Some {
            let j = choose|j: int|
                0 <= j < entries@.len() && (#[trigger] entries@[j]).ip == entry.ip && fresh(
                    entries@[j],
                    now,
                    ttl,
                ) && entries@[j].value == *r->0;
            assert(entries@.contains(entries@[j]));
        }
    } else if r is Some {
        let j = choose|j: int|
            0 <= j < entries@.len() && (#[trigger] entries@[j]).ip == entry.ip && fresh(
                entries@[j],
                now,
                ttl,
            ) && entries@[j].value == *r->0;
        assert(entries@.contains(entries@[j]));
    }
}

/// A cache that is pruned keeps nothing that is too old, no more than ten
/// thousand entries, and of what it gives up for room nothing that is younger
/// than what it keeps.
pub proof fn law_pruning_keeps_the_young<V>(
    entries: &mut Vec<CacheEntry<V>>,
    now: u64,
    ttl: u64,
    e: CacheEntry<V>,
    k: CacheEntry<V>,
)
    requires
        call_ensures(prune_cache::<V>, (entries, now, ttl), ()),
        old(entries)@.contains(e),
        final(entries)@.contains(k),
        e.cached_at <= now,
        k.cached_at <= now,
    ensures
        final(entries)@.len() <= 10_000,
        old(entries)@.contains(k),
        now - k.cached_at < ttl,
        !final(entries)@.contains(e) && now - e.cached_at < ttl ==> e.cached_at <= k.cached_at
            && final(entries)@.len() == 10_000,
{
    law_prune_bounds(old(entries)@, final(entries)@, now, ttl);
    lemma_fresh_entries_contains(old(entries)@, now, ttl, e);
    lemma_fresh_entries_contains(old(entries)@, now, ttl, k);
}

/// What is remembered is there afterwards, if it is young enough and there is
/// room.
pub proof fn law_remembered_is_kept<V>(
    entries: &mut Vec<CacheEntry<V>>,
    entry: CacheEntry<V>,
    now: u64,
    ttl: u64,
)
    requires
        call_ensures(remember::<V>, (entries, entry, now, ttl), ()),
        distinct_ips(old(entries)@),
        entry.cached_at == now,
        ttl > 0,
        old(entries)@.len() < 10_000,
    ensures
        final(entries)@.contains(entry),
        forall|e: CacheEntry<V>| #[trigger]
            final(entries)@.contains(e) && e.ip == entry.ip ==> e == entry,
{
    law_stored_is_cached(old(entries)@, entry);
    let all = with_entry(old(entries)@, entry);
    lemma_fresh_entries_contains(all, now, ttl, entry);
    lemma_with_entry_len(old(entries)@, entry);
    lemma_fresh_len(all, now, ttl);
    assert forall|e: CacheEntry<V>| #[trigger]
        final(entries)@.contains(e) && e.ip == entry.ip implies e == entry by {
        lemma_fresh_entries_contains(all, now, ttl, e);
    }
}

/// Storing adds one entry at most.
proof fn lemma_with_entry_len<V>(entries: Seq<CacheEntry<V>>, entry: CacheEntry<V>)
    ensures
        with_entry(entries, entry).len() <= entries.len() + 1,
    decreases entries.len(),
{
    if entries.len() > 0 && entries[0].ip != entry.ip {
        lemma_with_entry_len(entries.skip(1), entry);
    }
}

/// What is young enough is no more than what there is.
proof fn lemma_fresh_len<V>(entries: Seq<CacheEntry<V>>, now: u64, ttl: u64)
    ensures
        fresh_entries(entries, now, ttl).len() <= entries.len(),
    decreases entries.len(),
{
    if entries.len() > 0 {
        lemma_fresh_len(entries.drop_last(), now, ttl);
    }
}

} // verus!
