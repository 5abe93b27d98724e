//! Choosing which addresses to look up next.

use crate::addr::IpAddr;
use vstd::prelude::*;

verus! {

/// An address seen in a session, and whether it still lacks the information.
#[derive(Clone, Copy)]
pub struct Candidate {
    pub ip: IpAddr,
    pub missing: bool,
}

/// Up to `cap` distinct addresses that lack the information, in the order in
/// which they are first seen.
pub open spec fn batch_of(seen: Seq<Candidate>, cap: nat) -> Seq<IpAddr>
    decreases seen.len(),
{
    if seen.len() == 0 {
        Seq::empty()
    } else {
        let before = batch_of(seen.drop_last(), cap);
        let next = seen.last();
        if before.len() < cap && next.missing && !before.contains(next.ip) {
            before.push(next.ip)
        } else {
            before
        }
    }
}

/// Whether an address is in a list.
pub fn contains_ip(list: &Vec<IpAddr>, ip: IpAddr) -> (r: bool)
    ensures
        r == list@.contains(ip),
{
    let mut i: usize = 0;
    while i < list.len()
        invariant
            i <= list.len(),
            forall|j: int| 0 <= j < i ==> #[trigger] list@[j] != ip,
        decreases list.len() - i,
    {
        if list[i] == ip {
            assert(list@[i as int] == ip);
            return true;
        }
        i = i + 1;
    }
    false
}

/// Collects a bounded, first-seen batch of distinct addresses.
pub fn collect_batch(seen: &Vec<Candidate>, cap: usize) -> (r: Vec<IpAddr>)
    ensures
        r@ == batch_of(seen@, cap as nat),
{
    let mut batch: Vec<IpAddr> = Vec::new();
    let mut i: usize = 0;
    while i < seen.len()
        invariant
            i <= seen.len(),
            batch@ == batch_of(seen@.take(i as int), cap as nat),
        decreases seen.len() - i,
    {
        let next: Candidate = seen[i];
        assert(seen@.take(i + 1).drop_last() =~= seen@.take(i as int));
        if batch.len() < cap && next.missing && !contains_ip(&batch, next.ip) {
            batch.push(next.ip);
        }
        i = i + 1;
    }
    assert(seen@.take(seen@.len() as int) =~= seen@);
    batch
}

/// A batch holds no address twice, only addresses that were seen lacking the
/// information, and no more than its limit.
pub proof fn law_batch_is_distinct(seen: Seq<Candidate>, cap: nat)
    ensures
        batch_of(seen, cap).no_duplicates(),
        batch_of(seen, cap).len() <= cap,
        forall|ip: IpAddr| #[trigger]
            batch_of(seen, cap).contains(ip) ==> exists|i: int|
                0 <= i < seen.len() && (#[trigger] seen[i]).missing && seen[i].ip == ip,
    decreases seen.len(),
{
    let all = batch_of(seen, cap);
    if seen.len() > 0 {
        let init = seen.drop_last();
        let before = batch_of(init, cap);
        law_batch_is_distinct(init, cap);
        assert forall|ip: IpAddr| #[trigger] all.contains(ip) implies exists|i: int|
            0 <= i < seen.len() && (#[trigger] seen[i]).missing && seen[i].ip == ip by {
            let k = choose|k: int| 0 <= k < all.len() && all[k] == ip;
            if k < before.len() {
                assert(before[k] == ip);
                assert(before.contains(ip));
                let i = choose|i: int|
                    0 <= i < init.len() && (#[trigger] init[i]).missing && init[i].ip == ip;
                assert(seen[i] == init[i]);
            } else {
                assert(seen[seen.len() - 1].ip == ip);
            }
        }
    }
}

/// What is looked up next is what is missing, each address once, in the order
/// in which they are met; nothing missing is left out while there is room.
pub proof fn law_batch_takes_what_is_missing(seen: &Vec<Candidate>, cap: usize, r: Vec<IpAddr>, k: int)
    requires
        call_ensures(collect_batch, (seen, cap), r),
        0 <= k < seen@.len(),
        seen@[k].missing,
    ensures
        r@.len() < cap ==> r@.contains(seen@[k].ip),
        r@.len() <= cap,
{
    lemma_batch_complete(seen@, cap as nat, k);
    law_batch_is_distinct(seen@, cap as nat);
}

/// Nothing missing is left out while there is room.
proof fn lemma_batch_complete(seen: Seq<Candidate>, cap: nat, k: int)
    requires
        0 <= k < seen.len(),
        seen[k].missing,
    ensures
        batch_of(seen, cap).len() < cap ==> batch_of(seen, cap).contains(seen[k].ip),
        batch_of(seen, cap).len() >= batch_of(seen.drop_last(), cap).len(),
    decreases seen.len(),
{
    let before = batch_of(seen.drop_last(), cap);
    let all = batch_of(seen, cap);
    if k < seen.len() - 1 {
        assert(seen.drop_last()[k] == seen[k]);
        lemma_batch_complete(seen.drop_last(), cap, k);
        if before.len() < cap {
            let i = choose|i: int| 0 <= i < before.len() && before[i] == seen[k].ip;
            assert(all[i] == seen[k].ip);
        }
    } else if before.len() < cap && !before.contains(seen[k].ip) {
        assert(all[before.len() as int] == seen[k].ip);
    }
}

} // verus!
