//! Sets of responders.

use crate::addr::IpAddr;
use crate::session::{address_views, Address, AddressView, Responder};
use vstd::prelude::*;

verus! {

/// Whether an address sorts before another: IPv4 before IPv6, then by value.
pub open spec fn sorts_before(a: IpAddr, b: IpAddr) -> bool {
    match (a, b) {
        (IpAddr::V4(x), IpAddr::V4(y)) => x.bits < y.bits,
        (IpAddr::V4(_), IpAddr::V6(_)) => true,
        (IpAddr::V6(_), IpAddr::V4(_)) => false,
        (IpAddr::V6(x), IpAddr::V6(y)) => x.bits < y.bits,
    }
}

/// Whether an address sorts before another.
pub fn is_before(a: IpAddr, b: IpAddr) -> (r: bool)
    ensures
        r == sorts_before(a, b),
{
    match (a, b) {
        (IpAddr::V4(x), IpAddr::V4(y)) => x.bits < y.bits,
        (IpAddr::V4(_), IpAddr::V6(_)) => true,
        (IpAddr::V6(_), IpAddr::V4(_)) => false,
        (IpAddr::V6(x), IpAddr::V6(y)) => x.bits < y.bits,
    }
}

/// Sorted addresses with one more at its place, after its equals.
pub open spec fn put(sorted: Seq<AddressView>, a: AddressView) -> Seq<AddressView>
    decreases sorted.len(),
{
    if sorted.len() > 0 && sorts_before(a.ip, sorted.last().ip) {
        put(sorted.drop_last(), a).push(sorted.last())
    } else {
        sorted.push(a)
    }
}

/// Addresses in order.
pub open spec fn in_order(addresses: Seq<AddressView>) -> Seq<AddressView>
    decreases addresses.len(),
{
    if addresses.len() == 0 {
        addresses
    } else {
        put(in_order(addresses.drop_last()), addresses.last())
    }
}

/// Whether addresses are in order.
pub open spec fn is_ordered(addresses: Seq<AddressView>) -> bool {
    forall|i: int, j: int|
        0 <= i < j < addresses.len() ==> !sorts_before(
            #[trigger] addresses[j].ip,
            #[trigger] addresses[i].ip,
        )
}

/// The addresses of responders.
pub open spec fn addresses_of(responders: Seq<Responder>) -> Seq<AddressView> {
    Seq::new(responders.len(), |i: int| responders[i].address@)
}

/// Puts one more address at its place.
fn put_address(sorted: &mut Vec<Address>, a: Address)
    ensures
        address_views(final(sorted)@) == put(address_views(old(sorted)@), a@),
{
    let ghost start = address_views(sorted@);
    let mut at: usize = sorted.len();
    proof {
        assert(start.take(at as int) =~= start);
        assert(start.skip(at as int) =~= Seq::empty());
        assert(put(start, a@) =~= put(start.take(at as int), a@) + start.skip(at as int));
    }
    while at > 0 && is_before(a.ip, sorted[at - 1].ip)
        invariant
            at <= sorted.len(),
            start == address_views(sorted@),
            put(start, a@) == put(start.take(at as int), a@) + start.skip(at as int),
        decreases at,
    {
        proof {
            let head = start.take(at as int);
            assert(head.drop_last() =~= start.take(at - 1));
            assert(head.last() == start[at - 1]);
            assert(put(start.take(at - 1), a@).push(start[at - 1]) + start.skip(at as int) =~= put(
                start.take(at - 1),
                a@,
            ) + start.skip(at - 1));
        }
        at = at - 1;
    }
    proof {
        let head = start.take(at as int);
        if at > 0 {
            assert(head.last() == start[at - 1]);
        }
        assert(put(head, a@) == head.push(a@));
        assert(put(start, a@) =~= start.insert(at as int, a@));
    }
    sorted.insert(at, a);
    assert(address_views(sorted@) =~= start.insert(at as int, a@));
}

/// The addresses of responders, in order.
pub fn ordered_addresses(responders: &Vec<Responder>) -> (r: Vec<Address>)
    ensures
        address_views(r@) == in_order(addresses_of(responders@)),
{
    let mut out: Vec<Address> = Vec::new();
    let ghost all = addresses_of(responders@);
    let mut i: usize = 0;
    proof {
        assert(all.take(0) =~= Seq::empty());
        assert(address_views(out@) =~= Seq::empty());
    }
    while i < responders.len()
        invariant
            i <= responders.len(),
            all == addresses_of(responders@),
            address_views(out@) == in_order(all.take(i as int)),
        decreases responders.len() - i,
    {
        assert(all.take(i + 1).drop_last() =~= all.take(i as int));
        assert(all.take(i + 1).last() == responders@[i as int].address@);
        put_address(&mut out, responders[i].address.copy());
        i = i + 1;
    }
    assert(all.take(all.len() as int) =~= all);
    out
}

/// Whether an address is among others.
pub open spec fn has_address(addresses: Seq<AddressView>, ip: IpAddr) -> bool {
    exists|i: int| 0 <= i < addresses.len() && #[trigger] addresses[i].ip == ip
}

/// The addresses that are not among others.
pub open spec fn not_in(addresses: Seq<AddressView>, others: Seq<AddressView>) -> Seq<AddressView>
    decreases addresses.len(),
{
    if addresses.len() == 0 {
        addresses
    } else if has_address(others, addresses.last().ip) {
        not_in(addresses.drop_last(), others)
    } else {
        not_in(addresses.drop_last(), others).push(addresses.last())
    }
}

/// Whether an address is among others.
pub fn contains_address(addresses: &Vec<Address>, ip: IpAddr) -> (r: bool)
    ensures
        r == has_address(address_views(addresses@), ip),
{
    let mut i: usize = 0;
    while i < addresses.len()
        invariant
            i <= addresses.len(),
            forall|j: int| 0 <= j < i ==> #[trigger] addresses@[j].ip != ip,
        decreases addresses.len() - i,
    {
        if addresses[i].ip == ip {
            assert(address_views(addresses@)[i as int].ip == ip);
            return true;
        }
        i = i + 1;
    }
    assert forall|j: int| 0 <= j < addresses@.len() implies #[trigger] address_views(
        addresses@,
    )[j].ip != ip by {
        assert(addresses@[j].ip != ip);
    }
    false
}

/// The addresses that are not among others.
pub fn addresses_not_in(addresses: &Vec<Address>, others: &Vec<Address>) -> (r: Vec<Address>)
    ensures
        address_views(r@) == not_in(address_views(addresses@), address_views(others@)),
{
    let mut out: Vec<Address> = Vec::new();
    let ghost all = address_views(addresses@);
    let ghost rest = address_views(others@);
    let mut i: usize = 0;
    proof {
        assert(all.take(0) =~= Seq::empty());
        assert(address_views(out@) =~= Seq::empty());
    }
    while i < addresses.len()
        invariant
            i <= addresses.len(),
            all == address_views(addresses@),
            rest == address_views(others@),
            address_views(out@) == not_in(all.take(i as int), rest),
        decreases addresses.len() - i,
    {
        proof {
            assert(all.take(i + 1).drop_last() =~= all.take(i as int));
            assert(all.take(i + 1).last() == addresses@[i as int]@);
        }
        if !contains_address(others, addresses[i].ip) {
            let ghost before = address_views(out@);
            out.push(addresses[i].copy());
            assert(address_views(out@) =~= before.push(all[i as int]));
        }
        i = i + 1;
    }
    assert(all.take(all.len() as int) =~= all);
    out
}

/// Sorting keeps every address and puts them in order.
pub proof fn law_in_order(addresses: Seq<AddressView>)
    ensures
        is_ordered(in_order(addresses)),
        in_order(addresses).to_multiset() == addresses.to_multiset(),
    decreases addresses.len(),
{
    broadcast use vstd::seq_lib::group_to_multiset_ensures;

    if addresses.len() > 0 {
        let head = addresses.drop_last();
        let a = addresses.last();
        law_in_order(head);
        lemma_put(in_order(head), a);
        assert(addresses =~= head.push(a));
    }
}

/// Putting an address at its place keeps the order.
proof fn lemma_put(sorted: Seq<AddressView>, a: AddressView)
    requires
        is_ordered(sorted),
    ensures
        is_ordered(put(sorted, a)),
        put(sorted, a).to_multiset() == sorted.to_multiset().insert(a),
        forall|b: IpAddr|
            (forall|i: int| 0 <= i < sorted.len() ==> !sorts_before(b, #[trigger] sorted[i].ip))
                && !sorts_before(b, a.ip) ==> forall|i: int|
                0 <= i < put(sorted, a).len() ==> !sorts_before(b, #[trigger] put(sorted, a)[i].ip),
    decreases sorted.len(),
{
    broadcast use vstd::seq_lib::group_to_multiset_ensures;

    if sorted.len() > 0 && sorts_before(a.ip, sorted.last().ip) {
        let head = sorted.drop_last();
        let z = sorted.last();
        assert(is_ordered(head)) by {
            assert forall|i: int, j: int| 0 <= i < j < head.len() implies !sorts_before(
                #[trigger] head[j].ip,
                #[trigger] head[i].ip,
            ) by {
                assert(!sorts_before(sorted[j].ip, sorted[i].ip));
            }
        }
        lemma_put(head, a);
        assert(sorted =~= head.push(z));
        let out = put(sorted, a);
        let inner = put(head, a);
        assert(out == inner.push(z));
        assert(forall|i: int| 0 <= i < head.len() ==> !sorts_before(z.ip, #[trigger] head[i].ip))
            by {
            assert forall|i: int| 0 <= i < head.len() implies !sorts_before(
                z.ip,
                #[trigger] head[i].ip,
            ) by {
                assert(!sorts_before(sorted[sorted.len() - 1].ip, sorted[i].ip));
            }
        }
        assert(!sorts_before(z.ip, a.ip));
        assert forall|i: int, j: int| 0 <= i < j < out.len() implies !sorts_before(
            #[trigger] out[j].ip,
            #[trigger] out[i].ip,
        ) by {
            if j < inner.len() {
                assert(!sorts_before(inner[j].ip, inner[i].ip));
            } else {
                assert(!sorts_before(z.ip, inner[i].ip));
            }
        }
        assert forall|b: IpAddr|
            (forall|i: int| 0 <= i < sorted.len() ==> !sorts_before(b, #[trigger] sorted[i].ip))
                && !sorts_before(b, a.ip) implies forall|i: int|
            0 <= i < out.len() ==> !sorts_before(b, #[trigger] out[i].ip) by {
            assert forall|i: int| 0 <= i < head.len() implies !sorts_before(
                b,
                #[trigger] head[i].ip,
            ) by {
                assert(!sorts_before(b, sorted[i].ip));
            }
            assert forall|i: int| 0 <= i < out.len() implies !sorts_before(b, #[trigger] out[i].ip)
                by {
                if i < inner.len() {
                    assert(out[i] == inner[i]);
                } else {
                    assert(!sorts_before(b, sorted[sorted.len() - 1].ip));
                }
            }
        }
        assert(inner.to_multiset() == head.to_multiset().insert(a));
        assert(out.to_multiset() == inner.to_multiset().insert(z));
        assert(sorted.to_multiset() == head.to_multiset().insert(z));
        assert(head.to_multiset().insert(a).insert(z) =~= head.to_multiset().insert(z).insert(a));
    } else {
        let out = put(sorted, a);
        assert forall|i: int, j: int| 0 <= i < j < out.len() implies !sorts_before(
            #[trigger] out[j].ip,
            #[trigger] out[i].ip,
        ) by {
            if j < sorted.len() {
                assert(!sorts_before(sorted[j].ip, sorted[i].ip));
            } else if sorted.len() > 0 {
                assert(!sorts_before(a.ip, sorted[sorted.len() - 1].ip));
                if i < sorted.len() - 1 {
                    assert(!sorts_before(sorted[sorted.len() - 1].ip, sorted[i].ip));
                }
            }
        }
        assert forall|b: IpAddr|
            (forall|i: int| 0 <= i < sorted.len() ==> !sorts_before(b, #[trigger] sorted[i].ip))
                && !sorts_before(b, a.ip) implies forall|i: int|
            0 <= i < out.len() ==> !sorts_before(b, #[trigger] out[i].ip) by {
            assert forall|i: int| 0 <= i < out.len() implies !sorts_before(b, #[trigger] out[i].ip)
                by {
                if i < sorted.len() {
                    assert(!sorts_before(b, sorted[i].ip));
                }
            }
        }
    }
}

/// An address is reported as missing exactly if it is there on one side and
/// not on the other.
pub proof fn law_not_in(addresses: Seq<AddressView>, others: Seq<AddressView>, ip: IpAddr)
    ensures
        has_address(not_in(addresses, others), ip) == (has_address(addresses, ip) && !has_address(
            others,
            ip,
        )),
    decreases addresses.len(),
{
    if addresses.len() > 0 {
        let head = addresses.drop_last();
        law_not_in(head, others, ip);
        assert(addresses =~= head.push(addresses.last()));
        lemma_has_push(head, addresses.last(), ip);
        lemma_has_push(not_in(head, others), addresses.last(), ip);
    }
}

proof fn lemma_has_push(s: Seq<AddressView>, a: AddressView, ip: IpAddr)
    ensures
        has_address(s.push(a), ip) == (has_address(s, ip) || a.ip == ip),
{
    let t = s.push(a);
    if has_address(s, ip) {
        let i = choose|i: int| 0 <= i < s.len() && #[trigger] s[i].ip == ip;
        assert(t[i].ip == ip);
    }
    if a.ip == ip {
        assert(t[s.len() as int].ip == ip);
    }
    if has_address(t, ip) {
        let i = choose|i: int| 0 <= i < t.len() && #[trigger] t[i].ip == ip;
        if i < s.len() {
            assert(s[i].ip == ip);
        }
    }
}

/// Addresses are in order by family, IPv4 first, and then by number.
pub proof fn law_order_of_addresses(a: IpAddr, b: IpAddr, ab: bool, ba: bool)
    requires
        call_ensures(is_before, (a, b), ab),
        call_ensures(is_before, (b, a), ba),
    ensures
        !(ab && ba),
        !ab && !ba ==> a == b,
        (a is V4) && (b is V6) ==> ab,
        a matches IpAddr::V4(x) ==> (b matches IpAddr::V4(y) ==> (ab <==> x.bits < y.bits)),
        a matches IpAddr::V6(x) ==> (b matches IpAddr::V6(y) ==> (ab <==> x.bits < y.bits)),
{
}

/// The addresses of responders are put in order, none more and none less.
pub proof fn law_addresses_put_in_order(responders: &Vec<Responder>, r: Vec<Address>)
    requires
        call_ensures(ordered_addresses, (responders,), r),
    ensures
        r@.len() == responders@.len(),
        forall|i: int, j: int|
            0 <= i < j < r@.len() ==> {
                &&& (#[trigger] r@[i]).ip is V6 ==> (#[trigger] r@[j]).ip is V6
                &&& r@[i].ip matches IpAddr::V4(x) ==> (r@[j].ip matches IpAddr::V4(y) ==> x.bits
                    <= y.bits)
                &&& r@[i].ip matches IpAddr::V6(x) ==> (r@[j].ip matches IpAddr::V6(y) ==> x.bits
                    <= y.bits)
            },
{
    let all = addresses_of(responders@);
    law_in_order(all);
    let sorted = in_order(all);
    let views = address_views(r@);
    assert(views == sorted);
    all.to_multiset_ensures();
    sorted.to_multiset_ensures();
    assert(sorted.len() == all.len());
    assert forall|i: int, j: int| 0 <= i < j < r@.len() implies {
        &&& (#[trigger] r@[i]).ip is V6 ==> (#[trigger] r@[j]).ip is V6
        &&& r@[i].ip matches IpAddr::V4(x) ==> (r@[j].ip matches IpAddr::V4(y) ==> x.bits <= y.bits)
        &&& r@[i].ip matches IpAddr::V6(x) ==> (r@[j].ip matches IpAddr::V6(y) ==> x.bits <= y.bits)
    } by {
        assert(views[i].ip == r@[i].ip && views[j].ip == r@[j].ip);
        assert(!sorts_before(sorted[j].ip, sorted[i].ip));
    }
}

/// Of two lists of addresses, what the one has and the other has not.
pub proof fn law_difference_of_addresses(
    a: &Vec<Address>,
    b: &Vec<Address>,
    r: Vec<Address>,
    ip: IpAddr,
    found: bool,
)
    requires
        call_ensures(addresses_not_in, (a, b), r),
        call_ensures(contains_address, (&r, ip), found),
    ensures
        found <==> has_address(address_views(a@), ip) && !has_address(address_views(b@), ip),
{
    law_not_in(address_views(a@), address_views(b@), ip);
}

} // verus!
