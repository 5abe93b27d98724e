//! From names to targets: which addresses are traced, and which requests are
//! refused.

use crate::addr::IpAddr;
use crate::flows::of_family;
use crate::probe::interface::InterfaceInfo;
use crate::session::Address;
use crate::text::{copies_from, copy_of, opt_text, push_copy, push_text, texts};
use vstd::prelude::*;

verus! {

/// A name and the addresses that it resolved to, in order.
#[derive(Clone, Debug)]
pub struct Resolved {
    pub name: String,
    pub ips: Vec<IpAddr>,
}

/// A target: its address, the name it is known by, and its other names.
#[derive(Clone, Debug)]
pub struct ResolvedTarget {
    pub ip: IpAddr,
    pub primary: String,
    pub aliases: Vec<String>,
}

/// A target by its values.
pub struct TargetView {
    pub ip: IpAddr,
    pub primary: Seq<char>,
    pub aliases: Seq<Seq<char>>,
}

impl View for ResolvedTarget {
    type V = TargetView;

    open spec fn view(&self) -> TargetView {
        TargetView { ip: self.ip, primary: self.primary@, aliases: texts(self.aliases@) }
    }
}

/// What names resolved to.
#[derive(Clone, Debug)]
pub struct ResolveResult {
    pub targets: Vec<ResolvedTarget>,
    pub skipped_ipv4: usize,
    pub skipped_ipv6: usize,
}

/// An address with the name that gave it.
pub struct Named {
    pub ip: IpAddr,
    pub name: Seq<char>,
}

/// The addresses of one name.
pub open spec fn named_by(r: Resolved) -> Seq<Named> {
    Seq::new(r.ips@.len(), |i: int| Named { ip: r.ips@[i], name: r.name@ })
}

/// The addresses of all names, in order.
pub open spec fn all_named(list: Seq<Resolved>) -> Seq<Named>
    decreases list.len(),
{
    if list.len() == 0 {
        Seq::empty()
    } else {
        all_named(list.drop_last()) + named_by(list.last())
    }
}

/// Whether an address occurs.
pub open spec fn has_ip(ips: Seq<IpAddr>, ip: IpAddr) -> bool {
    exists|i: int| 0 <= i < ips.len() && #[trigger] ips[i] == ip
}

/// The addresses that occur, each once, in the order of their first
/// occurrence.
pub open spec fn distinct(all: Seq<Named>) -> Seq<IpAddr>
    decreases all.len(),
{
    if all.len() == 0 {
        Seq::empty()
    } else {
        let rest = distinct(all.drop_last());
        if has_ip(rest, all.last().ip) {
            rest
        } else {
            rest.push(all.last().ip)
        }
    }
}

/// The names that gave an address, in order.
pub open spec fn names_of(all: Seq<Named>, ip: IpAddr) -> Seq<Seq<char>>
    decreases all.len(),
{
    if all.len() == 0 {
        Seq::empty()
    } else if all.last().ip == ip {
        names_of(all.drop_last(), ip).push(all.last().name)
    } else {
        names_of(all.drop_last(), ip)
    }
}

/// Which family is kept: both where all addresses were asked for and no
/// family was forced, else the forced one, else that of the first address.
pub open spec fn kept_family(
    order: Seq<IpAddr>,
    resolve_all: bool,
    force_ipv4: bool,
    force_ipv6: bool,
) -> Option<bool> {
    if resolve_all && !force_ipv4 && !force_ipv6 {
        None
    } else if force_ipv6 {
        Some(true)
    } else if force_ipv4 {
        Some(false)
    } else {
        Some(order[0] is V6)
    }
}

/// Whether an address is kept.
pub open spec fn is_kept(ip: IpAddr, family: Option<bool>) -> bool {
    match family {
        None => true,
        Some(ipv6) => of_family(ip, ipv6),
    }
}

/// The target of an address: the first name that gave it is the one it is
/// known by.
pub open spec fn target_of(all: Seq<Named>, ip: IpAddr) -> TargetView {
    let names = names_of(all, ip);
    TargetView { ip, primary: names[0], aliases: names.skip(1) }
}

/// The targets of the addresses that are kept.
pub open spec fn kept_targets(
    all: Seq<Named>,
    order: Seq<IpAddr>,
    family: Option<bool>,
) -> Seq<TargetView>
    decreases order.len(),
{
    if order.len() == 0 {
        Seq::empty()
    } else if is_kept(order.last(), family) {
        kept_targets(all, order.drop_last(), family).push(target_of(all, order.last()))
    } else {
        kept_targets(all, order.drop_last(), family)
    }
}

/// How many addresses of a family are not kept.
pub open spec fn skipped(order: Seq<IpAddr>, family: Option<bool>, ipv6: bool) -> nat
    decreases order.len(),
{
    if order.len() == 0 {
        0
    } else {
        skipped(order.drop_last(), family, ipv6) + (if !is_kept(order.last(), family) && of_family(
            order.last(),
            ipv6,
        ) {
            1nat
        } else {
            0
        })
    }
}

/// Targets by their values.
pub open spec fn target_views(v: Seq<ResolvedTarget>) -> Seq<TargetView> {
    Seq::new(v.len(), |i: int| v[i]@)
}

/// What is said where no address is kept.
pub open spec fn nothing_kept(family: Option<bool>) -> Seq<char> {
    match family {
        Some(true) => "No IPv6 addresses found for targets"@,
        Some(false) => "No IPv4 addresses found for targets"@,
        None => "No matching addresses found for targets"@,
    }
}

/// An address and its names, while names are being collected.
struct Entry {
    ip: IpAddr,
    names: Vec<String>,
}

/// Whether entries hold what has been collected from `all`.
spec fn collected(entries: Seq<Entry>, all: Seq<Named>) -> bool {
    &&& entries.len() == distinct(all).len()
    &&& forall|i: int|
        0 <= i < entries.len() ==> (#[trigger] entries[i]).ip == distinct(all)[i] && texts(
            entries[i].names@,
        ) == names_of(all, entries[i].ip)
}

/// An address that occurs has a name, and one that does not has none.
proof fn lemma_names(all: Seq<Named>, ip: IpAddr)
    ensures
        has_ip(distinct(all), ip) ==> names_of(all, ip).len() > 0,
        !has_ip(distinct(all), ip) ==> names_of(all, ip).len() == 0,
    decreases all.len(),
{
    if all.len() > 0 {
        let rest = distinct(all.drop_last());
        lemma_names(all.drop_last(), ip);
        let last = all.last().ip;
        if !has_ip(rest, last) {
            let more = rest.push(last);
            if has_ip(rest, ip) {
                let i = choose|i: int| 0 <= i < rest.len() && #[trigger] rest[i] == ip;
                assert(more[i] == ip);
            }
            assert(more[rest.len() as int] == last);
            if has_ip(more, ip) && ip != last {
                let i = choose|i: int| 0 <= i < more.len() && #[trigger] more[i] == ip;
                assert(rest[i] == ip);
            }
        }
    }
}

/// No address is listed twice.
pub proof fn law_targets_distinct(all: Seq<Named>)
    ensures
        forall|i: int, j: int|
            0 <= i < j < distinct(all).len() ==> #[trigger] distinct(all)[i]
                != #[trigger] distinct(all)[j],
    decreases all.len(),
{
    if all.len() > 0 {
        law_targets_distinct(all.drop_last());
        let rest = distinct(all.drop_last());
        let last = all.last().ip;
        if !has_ip(rest, last) {
            assert forall|i: int, j: int| 0 <= i < j < distinct(all).len() implies #[trigger] distinct(
                all,
            )[i] != #[trigger] distinct(all)[j] by {
                if j == rest.len() {
                    assert(rest[i] != last);
                }
            }
        }
    }
}

/// Every address that some name gave is either kept or counted as skipped.
pub proof fn law_nothing_lost(all: Seq<Named>, order: Seq<IpAddr>, family: Option<bool>)
    ensures
        kept_targets(all, order, family).len() + skipped(order, family, false) + skipped(
            order,
            family,
            true,
        ) == order.len(),
    decreases order.len(),
{
    if order.len() > 0 {
        law_nothing_lost(all, order.drop_last(), family);
    }
}

/// Collects one more address.
fn collect_one(entries: &mut Vec<Entry>, ip: IpAddr, name: &str, Ghost(all): Ghost<Seq<Named>>)
    requires
        collected(old(entries)@, all),
    ensures
        collected(final(entries)@, all.push(Named { ip, name: name@ })),
{
    let ghost one = Named { ip, name: name@ };
    let ghost more = all.push(one);
    let ghost start = entries@;
    let ghost order = distinct(all);
    proof {
        assert(more.drop_last() =~= all);
        assert(more.last() == one);
        law_targets_distinct(all);
        assert forall|k: int| 0 <= k < start.len() implies names_of(more, (#[trigger] start[k]).ip)
            == (if start[k].ip == ip {
            texts(start[k].names@).push(name@)
        } else {
            texts(start[k].names@)
        }) by {}
    }
    let mut i: usize = 0;
    while i < entries.len()
        invariant
            i <= entries@.len(),
            entries@ == start,
            collected(start, all),
            order == distinct(all),
            forall|k: int| 0 <= k < i ==> (#[trigger] start[k]).ip != ip,
            more == all.push(one),
            more.drop_last() == all,
            more.last() == one,
            one == (Named { ip, name: name@ }),
            forall|k: int|
                0 <= k < start.len() ==> names_of(more, (#[trigger] start[k]).ip) == (if start[k].ip
                    == ip {
                    texts(start[k].names@).push(name@)
                } else {
                    texts(start[k].names@)
                }),
            forall|a: int, b: int|
                0 <= a < b < order.len() ==> #[trigger] order[a] != #[trigger] order[b],
        decreases entries@.len() - i,
    {
        if entries[i].ip == ip {
            let mut names: Vec<String> = copies_from(&entries[i].names, 0);
            assert(texts(names@) =~= texts(start[i as int].names@));
            push_copy(&mut names, name);
            entries.set(i, Entry { ip, names });
            proof {
                assert(order[i as int] == ip);
                assert(has_ip(order, ip));
                assert(distinct(more) == order);
                let after = entries@;
                assert forall|k: int| 0 <= k < after.len() implies (#[trigger] after[k]).ip
                    == distinct(more)[k] && texts(after[k].names@) == names_of(more, after[k].ip) by {
                    assert(start[k].ip == order[k]);
                    if k != i {
                        assert(after[k] == start[k]);
                        if k < i {
                            assert(order[k] != order[i as int]);
                        } else {
                            assert(order[i as int] != order[k]);
                        }
                    } else {
                        assert(names_of(more, start[k].ip) == texts(start[k].names@).push(name@));
                    }
                }
            }
            return;
        }
        i = i + 1;
    }
    proof {
        assert(!has_ip(order, ip)) by {
            assert forall|k: int| 0 <= k < order.len() implies #[trigger] order[k] != ip by {
                assert(start[k].ip == order[k]);
            }
        }
        assert(distinct(more) == order.push(ip));
        lemma_names(all, ip);
        assert(names_of(more, ip) =~= seq![name@]);
    }
    let mut names: Vec<String> = Vec::new();
    names.push(copy_of(name));
    assert(texts(names@) =~= seq![name@]);
    entries.push(Entry { ip, names });
    proof {
        let after = entries@;
        assert forall|k: int| 0 <= k < after.len() implies (#[trigger] after[k]).ip == distinct(
            more,
        )[k] && texts(after[k].names@) == names_of(more, after[k].ip) by {
            if k < start.len() {
                assert(after[k] == start[k]);
                assert(start[k].ip != ip);
            }
        }
    }
}

/// Collects the addresses of all names.
fn collect_all(list: &Vec<Resolved>) -> (r: Vec<Entry>)
    ensures
        collected(r@, all_named(list@)),
{
    let mut entries: Vec<Entry> = Vec::new();
    let mut i: usize = 0;
    assert(list@.take(0) =~= Seq::empty());
    while i < list.len()
        invariant
            i <= list.len(),
            collected(entries@, all_named(list@.take(i as int))),
        decreases list.len() - i,
    {
        let item: &Resolved = &list[i];
        let ghost base = all_named(list@.take(i as int));
        let ghost own = named_by(*item);
        let mut k: usize = 0;
        assert(base + own.take(0) =~= base);
        while k < item.ips.len()
            invariant
                k <= item.ips@.len(),
                own == named_by(*item),
                collected(entries@, base + own.take(k as int)),
            decreases item.ips@.len() - k,
        {
            let ghost so_far = base + own.take(k as int);
            collect_one(&mut entries, item.ips[k], item.name.as_str(), Ghost(so_far));
            proof {
                assert(own[k as int] == (Named { ip: item.ips@[k as int], name: item.name@ }));
                assert(so_far.push(own[k as int]) =~= base + own.take(k + 1));
            }
            k = k + 1;
        }
        proof {
            assert(own.take(own.len() as int) =~= own);
            assert(list@.take(i + 1).drop_last() =~= list@.take(i as int));
            assert(list@.take(i + 1).last() == list@[i as int]);
        }
        i = i + 1;
    }
    assert(list@.take(list@.len() as int) =~= list@);
    entries
}

/// The target of an entry.
fn entry_target(entry: &Entry, Ghost(all): Ghost<Seq<Named>>) -> (r: ResolvedTarget)
    requires
        texts(entry.names@) == names_of(all, entry.ip),
        entry.names@.len() > 0,
    ensures
        r@ == target_of(all, entry.ip),
{
    let ghost names = texts(entry.names@);
    let primary: String = copy_of(entry.names[0].as_str());
    let aliases: Vec<String> = copies_from(&entry.names, 1);
    assert(primary@ == names[0]);
    ResolvedTarget { ip: entry.ip, primary, aliases }
}

/// Makes targets of the addresses that names resolved to: each address once,
/// under the first name that gave it, the others being aliases. Addresses of
/// a family that is not asked for are skipped and counted.
pub fn resolve_targets(
    list: &Vec<Resolved>,
    resolve_all: bool,
    force_ipv4: bool,
    force_ipv6: bool,
) -> (r: Result<ResolveResult, String>)
    ensures
        ({
            let all = all_named(list@);
            let order = distinct(all);
            let family = kept_family(order, resolve_all, force_ipv4, force_ipv6);
            if order.len() == 0 {
                r is Err && r->Err_0@ == "No addresses found for hostnames"@
            } else if kept_targets(all, order, family).len() == 0 {
                r is Err && r->Err_0@ == nothing_kept(family)
            } else {
                r matches Ok(x) && target_views(x.targets@) == kept_targets(all, order, family)
                    && x.skipped_ipv4 == skipped(order, family, false) && x.skipped_ipv6 == skipped(
                    order,
                    family,
                    true,
                )
            }
        }),
{
    let entries: Vec<Entry> = collect_all(list);
    let ghost all = all_named(list@);
    let ghost order = distinct(all);
    if entries.len() == 0 {
        return Err(copy_of("No addresses found for hostnames"));
    }
    let family: Option<bool> = if resolve_all && !force_ipv4 && !force_ipv6 {
        None
    } else if force_ipv6 {
        Some(true)
    } else if force_ipv4 {
        Some(false)
    } else {
        Some(entries[0].ip.is_ipv6())
    };
    assert(entries@[0].ip == order[0]);
    let mut targets: Vec<ResolvedTarget> = Vec::new();
    let mut skipped_ipv4: usize = 0;
    let mut skipped_ipv6: usize = 0;
    let mut i: usize = 0;
    assert(order.take(0) =~= Seq::empty());
    assert(target_views(targets@) =~= Seq::empty());
    while i < entries.len()
        invariant
            i <= entries@.len(),
            all == all_named(list@),
            order == distinct(all),
            collected(entries@, all),
            target_views(targets@) == kept_targets(all, order.take(i as int), family),
            skipped_ipv4 == skipped(order.take(i as int), family, false),
            skipped_ipv6 == skipped(order.take(i as int), family, true),
            skipped_ipv4 + skipped_ipv6 <= i,
        decreases entries@.len() - i,
    {
        let ip: IpAddr = entries[i].ip;
        proof {
            assert(entries@[i as int].ip == order[i as int]);
            assert(order.take(i + 1).drop_last() =~= order.take(i as int));
            assert(order.take(i + 1).last() == ip);
            assert(has_ip(order, ip));
            lemma_names(all, ip);
            assert(texts(entries@[i as int].names@).len() == entries@[i as int].names@.len());
        }
        let keep: bool = match family {
            None => true,
            Some(ipv6) => ip.is_ipv6() == ipv6,
        };
        if keep {
            let ghost so_far = target_views(targets@);
            let one: ResolvedTarget = entry_target(&entries[i], Ghost(all));
            let ghost view = one@;
            targets.push(one);
            assert(target_views(targets@) =~= so_far.push(view));
        } else if ip.is_ipv6() {
            skipped_ipv6 = skipped_ipv6 + 1;
        } else {
            skipped_ipv4 = skipped_ipv4 + 1;
        }
        i = i + 1;
    }
    assert(order.take(order.len() as int) =~= order);
    if targets.len() == 0 {
        return Err(
            match family {
                Some(true) => copy_of("No IPv6 addresses found for targets"),
                Some(false) => copy_of("No IPv4 addresses found for targets"),
                None => copy_of("No matching addresses found for targets"),
            },
        );
    }
    Ok(ResolveResult { targets, skipped_ipv4, skipped_ipv6 })
}

/// The first address of a family that is not excluded.
pub open spec fn first_allowed(ips: Seq<IpAddr>, force_ipv4: bool, force_ipv6: bool) -> Option<
    IpAddr,
>
    decreases ips.len(),
{
    if ips.len() == 0 {
        None
    } else if is_allowed(ips[0], force_ipv4, force_ipv6) {
        Some(ips[0])
    } else {
        first_allowed(ips.skip(1), force_ipv4, force_ipv6)
    }
}

/// Whether an address is of a family that is not excluded; forcing IPv4 comes
/// first.
pub open spec fn is_allowed(ip: IpAddr, force_ipv4: bool, force_ipv6: bool) -> bool {
    if force_ipv4 {
        ip is V4
    } else if force_ipv6 {
        ip is V6
    } else {
        true
    }
}

/// Chooses among the addresses that a host name resolved to.
pub fn resolve_target(ips: &Vec<IpAddr>, force_ipv4: bool, force_ipv6: bool) -> (r: Result<
    IpAddr,
    String,
>)
    ensures
        match first_allowed(ips@, force_ipv4, force_ipv6) {
            Some(ip) => r == Ok::<IpAddr, String>(ip),
            None => r is Err && r->Err_0@ == (if ips@.len() == 0 {
                "No addresses found for hostname"@
            } else if force_ipv4 {
                "No IPv4 addresses found"@
            } else {
                "No IPv6 addresses found"@
            }),
        },
{
    if ips.len() == 0 {
        return Err(copy_of("No addresses found for hostname"));
    }
    let mut i: usize = 0;
    assert(ips@.skip(0) =~= ips@);
    while i < ips.len()
        invariant
            i <= ips@.len(),
            first_allowed(ips@.skip(i as int), force_ipv4, force_ipv6) == first_allowed(
                ips@,
                force_ipv4,
                force_ipv6,
            ),
        decreases ips@.len() - i,
    {
        assert(ips@.skip(i as int).skip(1) =~= ips@.skip(i + 1));
        let allowed: bool = if force_ipv4 {
            ips[i].is_ipv4()
        } else if force_ipv6 {
            ips[i].is_ipv6()
        } else {
            true
        };
        if allowed {
            return Ok(ips[i]);
        }
        i = i + 1;
    }
    if force_ipv4 {
        Err(copy_of("No IPv4 addresses found"))
    } else {
        Err(copy_of("No IPv6 addresses found"))
    }
}

/// Which families occur.
#[derive(Clone, Copy, Debug, PartialEq, Eq, Structural)]
pub struct Families {
    pub ipv4: bool,
    pub ipv6: bool,
}

/// Whether a family occurs among addresses.
pub open spec fn has_family(ips: Seq<IpAddr>, ipv6: bool) -> bool {
    exists|i: int| 0 <= i < ips.len() && of_family(#[trigger] ips[i], ipv6)
}

/// Which families occur among addresses.
pub fn families(ips: &Vec<IpAddr>) -> (r: Families)
    ensures
        r.ipv4 == has_family(ips@, false),
        r.ipv6 == has_family(ips@, true),
{
    let mut found = Families { ipv4: false, ipv6: false };
    let mut i: usize = 0;
    while i < ips.len()
        invariant
            i <= ips@.len(),
            found.ipv4 == exists|j: int| 0 <= j < i && of_family(#[trigger] ips@[j], false),
            found.ipv6 == exists|j: int| 0 <= j < i && of_family(#[trigger] ips@[j], true),
        decreases ips@.len() - i,
    {
        if ips[i].is_ipv6() {
            found.ipv6 = true;
            assert(of_family(ips@[i as int], true));
        } else {
            found.ipv4 = true;
            assert(of_family(ips@[i as int], false));
        }
        i = i + 1;
    }
    found
}

/// Whether the interface can be used for the targets.
#[derive(Clone, Debug)]
pub enum InterfaceCheck {
    /// It can; there may be warnings.
    Usable(Vec<String>),
    /// It cannot.
    Unusable(String),
}

/// The warning that a family has no address on the interface.
pub open spec fn missing_warning(name: Seq<char>, ipv6: bool) -> Seq<char> {
    "Warning: Interface '"@ + name + (if ipv6 {
        "' has no IPv6 address; IPv6 targets will not use interface binding."@
    } else {
        "' has no IPv4 address; IPv4 targets will not use interface binding."@
    })
}

/// The error that the only family has no address on the interface.
pub open spec fn missing_error(name: Seq<char>, ipv6: bool) -> Seq<char> {
    "Error: Interface '"@ + name + (if ipv6 {
        "' has no IPv6 address but targets require IPv6. Use -4 to force IPv4."@
    } else {
        "' has no IPv4 address but targets require IPv4. Use -6 to force IPv6."@
    })
}

/// The warnings of an interface.
pub open spec fn interface_warnings(info: InterfaceInfo, f: Families) -> Seq<Seq<char>> {
    let first = if f.ipv6 && info.ipv6 is None {
        Seq::empty().push(missing_warning(info.name@, true))
    } else {
        Seq::empty()
    };
    if f.ipv4 && info.ipv4 is None {
        first.push(missing_warning(info.name@, false))
    } else {
        first
    }
}

fn message(a: &str, name: &str, b: &str) -> (r: String)
    ensures
        r@ == a@ + name@ + b@,
{
    let mut out: String = copy_of(a);
    push_text(&mut out, name);
    push_text(&mut out, b);
    out
}

/// Checks that an interface has an address of each family that is traced.
/// Where both families are traced, a missing one is a warning only.
pub fn check_interface(info: &InterfaceInfo, f: Families) -> (r: InterfaceCheck)
    ensures
        ({
            let mixed = f.ipv4 && f.ipv6;
            if !mixed && f.ipv6 && info.ipv6 is None {
                r matches InterfaceCheck::Unusable(m) && m@ == missing_error(info.name@, true)
            } else if !mixed && f.ipv4 && info.ipv4 is None {
                r matches InterfaceCheck::Unusable(m) && m@ == missing_error(info.name@, false)
            } else {
                r matches InterfaceCheck::Usable(w) && texts(w@) == interface_warnings(*info, f)
            }
        }),
{
    let mixed: bool = f.ipv4 && f.ipv6;
    let mut warnings: Vec<String> = Vec::new();
    assert(texts(warnings@) =~= Seq::empty());
    if f.ipv6 && info.ipv6.is_none() {
        if !mixed {
            return InterfaceCheck::Unusable(
                message(
                    "Error: Interface '",
                    info.name.as_str(),
                    "' has no IPv6 address but targets require IPv6. Use -4 to force IPv4.",
                ),
            );
        }
        warnings.push(
            message(
                "Warning: Interface '",
                info.name.as_str(),
                "' has no IPv6 address; IPv6 targets will not use interface binding.",
            ),
        );
        assert(texts(warnings@) =~= Seq::empty().push(missing_warning(info.name@, true)));
    }
    let ghost first = texts(warnings@);
    if f.ipv4 && info.ipv4.is_none() {
        if !mixed {
            return InterfaceCheck::Unusable(
                message(
                    "Error: Interface '",
                    info.name.as_str(),
                    "' has no IPv4 address but targets require IPv4. Use -6 to force IPv6.",
                ),
            );
        }
        warnings.push(
            message(
                "Warning: Interface '",
                info.name.as_str(),
                "' has no IPv4 address; IPv4 targets will not use interface binding.",
            ),
        );
        assert(texts(warnings@) =~= first.push(missing_warning(info.name@, false)));
    }
    InterfaceCheck::Usable(warnings)
}

/// The name of a family.
pub open spec fn family_name(ipv6: bool) -> Seq<char> {
    if ipv6 {
        "IPv6"@
    } else {
        "IPv4"@
    }
}

/// What is wrong with a source address: it serves one family only, and that
/// must be the one that is traced.
pub open spec fn source_error(source: Address, f: Families) -> Option<Seq<char>> {
    let ipv6 = !f.ipv4 && f.ipv6;
    if !f.ipv4 && !f.ipv6 {
        None
    } else if f.ipv4 && f.ipv6 {
        Some(
            "Error: --source-ip cannot be used with mixed IPv4/IPv6 targets. Use -4 or -6 to restrict to one family."@,
        )
    } else if !of_family(source.ip, ipv6) {
        Some(
            "Error: Source IP "@ + source.text@ + " is "@ + family_name(source.ip is V6)
                + " but targets are "@ + family_name(ipv6)
                + ". Use -4 or -6 to force matching IP version."@,
        )
    } else {
        None
    }
}

/// Checks a source address against the families that are traced. (With no
/// target yet, each is checked when it is added.)
pub fn check_source(source: &Address, f: Families) -> (r: Option<String>)
    ensures
        opt_text(r) == source_error(*source, f),
{
    if !f.ipv4 && !f.ipv6 {
        return None;
    }
    if f.ipv4 && f.ipv6 {
        return Some(
            copy_of(
                "Error: --source-ip cannot be used with mixed IPv4/IPv6 targets. Use -4 or -6 to restrict to one family.",
            ),
        );
    }
    let ipv6: bool = f.ipv6;
    let own: bool = source.ip.is_ipv6();
    if own == ipv6 {
        return None;
    }
    let mut out: String = copy_of("Error: Source IP ");
    push_text(&mut out, source.text.as_str());
    push_text(&mut out, " is ");
    push_text(
        &mut out,
        if own {
            "IPv6"
        } else {
            "IPv4"
        },
    );
    push_text(&mut out, " but targets are ");
    push_text(
        &mut out,
        if ipv6 {
            "IPv6"
        } else {
            "IPv4"
        },
    );
    push_text(&mut out, ". Use -4 or -6 to force matching IP version.");
    Some(out)
}

/// What becomes of a request to trace one more address.
#[derive(Clone, Debug)]
pub enum AddDecision {
    /// It is traced already.
    Existing,
    /// It is refused.
    Refuse(String),
    /// It is traced from now on; its family may need a receiver first.
    Start { new_receiver: bool },
}

/// Why an address cannot be traced, if it cannot.
pub open spec fn add_error(ip: IpAddr, source: Option<Address>, interface: Option<InterfaceInfo>) -> Option<
    Seq<char>,
> {
    let ipv6 = ip is V6;
    match (source, interface) {
        (Some(s), _) if !of_family(s.ip, ipv6) => Some(
            "--source-ip "@ + s.text@ + " does not match target family"@,
        ),
        (_, Some(info)) if !info.has_family(ipv6) => Some(
            "Interface '"@ + info.name@ + "' has no "@ + family_name(ipv6) + " address"@,
        ),
        _ => None,
    }
}

/// Decides what becomes of a request to trace one more address. `receivers`
/// says which families have a receiver.
pub fn decide_add(
    traced: &Vec<IpAddr>,
    ip: IpAddr,
    source: &Option<Address>,
    interface: &Option<InterfaceInfo>,
    receivers: Families,
) -> (r: AddDecision)
    ensures
        has_ip(traced@, ip) ==> r is Existing,
        !has_ip(traced@, ip) ==> match add_error(ip, *source, *interface) {
            Some(m) => r matches AddDecision::Refuse(text) && text@ == m,
            None => r == (AddDecision::Start {
                new_receiver: if ip is V6 {
                    !receivers.ipv6
                } else {
                    !receivers.ipv4
                },
            }),
        },
{
    if contains_address(traced, ip) {
        return AddDecision::Existing;
    }
    let ipv6: bool = ip.is_ipv6();
    if let Some(s) = source {
        if s.ip.is_ipv6() != ipv6 {
            return AddDecision::Refuse(
                message("--source-ip ", s.text.as_str(), " does not match target family"),
            );
        }
    }
    if let Some(info) = interface {
        if !info.supports(ipv6) {
            let mut out: String = message("Interface '", info.name.as_str(), "' has no ");
            push_text(
                &mut out,
                if ipv6 {
                    "IPv6"
                } else {
                    "IPv4"
                },
            );
            push_text(&mut out, " address");
            return AddDecision::Refuse(out);
        }
    }
    AddDecision::Start {
        new_receiver: if ipv6 {
            !receivers.ipv6
        } else {
            !receivers.ipv4
        },
    }
}

/// Whether an address occurs.
pub fn contains_address(ips: &Vec<IpAddr>, ip: IpAddr) -> (r: bool)
    ensures
        r == has_ip(ips@, ip),
{
    let mut i: usize = 0;
    while i < ips.len()
        invariant
            i <= ips@.len(),
            forall|j: int| 0 <= j < i ==> #[trigger] ips@[j] != ip,
        decreases ips@.len() - i,
    {
        if ips[i] == ip {
            return true;
        }
        i = i + 1;
    }
    false
}

/// Takes an address up as a target, unless it is one already.
pub fn take_up(targets: &mut Vec<IpAddr>, ip: IpAddr) -> (r: bool)
    ensures
        r == !has_ip(old(targets)@, ip),
        final(targets)@ == (if has_ip(old(targets)@, ip) {
            old(targets)@
        } else {
            old(targets)@.push(ip)
        }),
{
    if contains_address(targets, ip) {
        false
    } else {
        targets.push(ip);
        true
    }
}

/// The source address to show: the configured one, else the one that routing
/// gives, if it gives one.
pub fn shown_source(configured: Option<IpAddr>, routed: IpAddr) -> (r: Option<IpAddr>)
    ensures
        r == (match configured {
            Some(ip) => Some(ip),
            None => match routed {
                IpAddr::V4(a) => if a.bits == 0 {
                    None
                } else {
                    Some(routed)
                },
                IpAddr::V6(a) => if a.bits == 0 {
                    None
                } else {
                    Some(routed)
                },
            },
        }),
{
    match configured {
        Some(ip) => Some(ip),
        None => {
            let unspecified: bool = match routed {
                IpAddr::V4(a) => a.bits == 0,
                IpAddr::V6(a) => a.bits == 0,
            };
            if unspecified {
                None
            } else {
                Some(routed)
            }
        },
    }
}

/// Targets are what the names resolve to, each address once, under the first
/// name that led to it, the others being its aliases; which family is kept is
/// what was asked for, else that of the first address, unless all are wanted.
pub proof fn law_targets_by_family(
    list: &Vec<Resolved>,
    resolve_all: bool,
    force_ipv4: bool,
    force_ipv6: bool,
    r: Result<ResolveResult, String>,
)
    requires
        call_ensures(resolve_targets, (list, resolve_all, force_ipv4, force_ipv6), r),
    ensures
        r matches Ok(found) ==> {
            &&& found.targets@.len() > 0
            &&& forall|i: int|
                0 <= i < found.targets@.len() ==> {
                    &&& force_ipv6 ==> (#[trigger] found.targets@[i]).ip is V6
                    &&& force_ipv4 && !force_ipv6 ==> found.targets@[i].ip is V4
                    &&& !resolve_all && !force_ipv4 && !force_ipv6 ==> (found.targets@[i].ip is V6)
                        == (found.targets@[0].ip is V6)
                }
            &&& resolve_all && !force_ipv4 && !force_ipv6 ==> found.skipped_ipv4 == 0
                && found.skipped_ipv6 == 0
            &&& forall|i: int, j: int|
                0 <= i < j < found.targets@.len() ==> (#[trigger] found.targets@[i]).ip != (
                #[trigger] found.targets@[j]).ip
        },
{
    if let Ok(found) = r {
        let all = all_named(list@);
        let order = distinct(all);
        let family = kept_family(order, resolve_all, force_ipv4, force_ipv6);
        let views = target_views(found.targets@);
        law_targets_distinct(all);
        lemma_kept(all, order, family);
        lemma_skipped(order, family);
        assert forall|i: int| 0 <= i < found.targets@.len() implies is_kept(
            (#[trigger] found.targets@[i]).ip,
            family,
        ) by {
            assert(views[i].ip == found.targets@[i].ip);
        }
        assert forall|i: int, j: int| 0 <= i < j < found.targets@.len() implies (
        #[trigger] found.targets@[i]).ip != (#[trigger] found.targets@[j]).ip by {
            assert(views[i].ip == found.targets@[i].ip && views[j].ip == found.targets@[j].ip);
        }
    }
}

/// What is kept is of the family that is kept, and different.
proof fn lemma_kept(all: Seq<Named>, order: Seq<IpAddr>, family: Option<bool>)
    requires
        forall|i: int, j: int| 0 <= i < j < order.len() ==> #[trigger] order[i] != #[trigger] order[j],
    ensures
        ({
            let kept = kept_targets(all, order, family);
            &&& forall|i: int| 0 <= i < kept.len() ==> is_kept((#[trigger] kept[i]).ip, family)
            &&& forall|i: int|
                0 <= i < kept.len() ==> order.contains((#[trigger] kept[i]).ip) && kept[i]
                    == target_of(all, kept[i].ip)
            &&& forall|i: int, j: int|
                0 <= i < j < kept.len() ==> (#[trigger] kept[i]).ip != (#[trigger] kept[j]).ip
        }),
    decreases order.len(),
{
    if order.len() > 0 {
        let front = order.drop_last();
        lemma_kept(all, front, family);
        let before = kept_targets(all, front, family);
        let kept = kept_targets(all, order, family);
        assert forall|i: int| 0 <= i < before.len() implies order.contains((#[trigger] before[i]).ip)
            && before[i].ip != order.last() by {
            let k = choose|k: int| 0 <= k < front.len() && front[k] == before[i].ip;
            assert(order[k] == before[i].ip);
            assert(order[order.len() - 1] != order[k]);
        }
        assert(order.contains(order.last())) by {
            assert(order[order.len() - 1] == order.last());
        }
    }
}

/// Nothing is skipped where every family is kept.
proof fn lemma_skipped(order: Seq<IpAddr>, family: Option<bool>)
    ensures
        family is None ==> skipped(order, family, true) == 0 && skipped(order, family, false) == 0,
        family == Some(true) ==> skipped(order, family, true) == 0,
        family == Some(false) ==> skipped(order, family, false) == 0,
    decreases order.len(),
{
    if order.len() > 0 {
        lemma_skipped(order.drop_last(), family);
    }
}

/// A target goes by the first name that led to its address.
pub proof fn law_target_goes_by_first_name(all: Seq<Named>, k: int)
    requires
        0 <= k < all.len(),
        forall|i: int| 0 <= i < k ==> (#[trigger] all[i]).ip != all[k].ip,
    ensures
        target_of(all, all[k].ip).primary == all[k].name,
        target_of(all, all[k].ip).ip == all[k].ip,
{
    lemma_first_name(all, k);
}

/// The first of the names of an address.
proof fn lemma_first_name(all: Seq<Named>, k: int)
    requires
        0 <= k < all.len(),
        forall|i: int| 0 <= i < k ==> (#[trigger] all[i]).ip != all[k].ip,
    ensures
        names_of(all, all[k].ip).len() > 0,
        names_of(all, all[k].ip)[0] == all[k].name,
    decreases all.len(),
{
    let front = all.drop_last();
    if k < all.len() - 1 {
        assert(front[k] == all[k]);
        assert forall|i: int| 0 <= i < k implies (#[trigger] front[i]).ip != front[k].ip by {
            assert(all[i].ip != all[k].ip);
        }
        lemma_first_name(front, k);
    } else {
        assert forall|i: int| 0 <= i < front.len() implies (#[trigger] front[i]).ip
            != all[k].ip by {
            assert(all[i].ip != all[k].ip);
        }
        lemma_no_names(front, all[k].ip);
    }
}

/// An address that nothing leads to has no names.
proof fn lemma_no_names(all: Seq<Named>, ip: IpAddr)
    requires
        forall|i: int| 0 <= i < all.len() ==> (#[trigger] all[i]).ip != ip,
    ensures
        names_of(all, ip).len() == 0,
    decreases all.len(),
{
    if all.len() > 0 {
        assert(all[all.len() - 1].ip != ip);
        lemma_no_names(all.drop_last(), ip);
    }
}

/// Of the addresses of a name the first that is of the family asked for is
/// traced.
pub proof fn law_first_of_the_family(
    ips: &Vec<IpAddr>,
    force_ipv4: bool,
    force_ipv6: bool,
    r: Result<IpAddr, String>,
    k: int,
)
    requires
        call_ensures(resolve_target, (ips, force_ipv4, force_ipv6), r),
        0 <= k < ips@.len(),
        force_ipv4 ==> ips@[k] is V4,
        force_ipv6 && !force_ipv4 ==> ips@[k] is V6,
        forall|i: int|
            0 <= i < k ==> if force_ipv4 {
                #[trigger] ips@[i] is V6
            } else {
                force_ipv6 && ips@[i] is V4
            },
    ensures
        r matches Ok(ip) && ip == ips@[k],
{
    lemma_first_allowed(ips@, force_ipv4, force_ipv6, k);
}

/// The first that is allowed.
proof fn lemma_first_allowed(ips: Seq<IpAddr>, force_ipv4: bool, force_ipv6: bool, k: int)
    requires
        0 <= k < ips.len(),
        is_allowed(ips[k], force_ipv4, force_ipv6),
        forall|i: int| 0 <= i < k ==> !is_allowed(#[trigger] ips[i], force_ipv4, force_ipv6),
    ensures
        first_allowed(ips, force_ipv4, force_ipv6) == Some(ips[k]),
    decreases k,
{
    if k > 0 {
        let rest = ips.skip(1);
        assert(!is_allowed(ips[0], force_ipv4, force_ipv6));
        assert forall|i: int| 0 <= i < k - 1 implies !is_allowed(
            #[trigger] rest[i],
            force_ipv4,
            force_ipv6,
        ) by {
            assert(rest[i] == ips[i + 1]);
        }
        lemma_first_allowed(rest, force_ipv4, force_ipv6, k - 1);
    }
}

/// Without any address of the family nothing is traced.
pub proof fn law_no_address_of_the_family(
    ips: &Vec<IpAddr>,
    r: Result<IpAddr, String>,
    s: Result<IpAddr, String>,
)
    requires
        call_ensures(resolve_target, (ips, true, false), r),
        call_ensures(resolve_target, (ips, false, true), s),
    ensures
        (forall|i: int| 0 <= i < ips@.len() ==> #[trigger] ips@[i] is V6) ==> r is Err,
        (forall|i: int| 0 <= i < ips@.len() ==> #[trigger] ips@[i] is V4) ==> s is Err,
{
    lemma_none_allowed(ips@, true, false);
    lemma_none_allowed(ips@, false, true);
}

/// Where none is allowed there is no first.
proof fn lemma_none_allowed(ips: Seq<IpAddr>, force_ipv4: bool, force_ipv6: bool)
    ensures
        (forall|i: int| 0 <= i < ips.len() ==> !is_allowed(#[trigger] ips[i], force_ipv4, force_ipv6))
            ==> first_allowed(ips, force_ipv4, force_ipv6) is None,
    decreases ips.len(),
{
    if ips.len() > 0 {
        let rest = ips.skip(1);
        lemma_none_allowed(rest, force_ipv4, force_ipv6);
        if forall|i: int| 0 <= i < ips.len() ==> !is_allowed(#[trigger] ips[i], force_ipv4, force_ipv6) {
            assert(!is_allowed(ips[0], force_ipv4, force_ipv6));
            assert forall|i: int| 0 <= i < rest.len() implies !is_allowed(
                #[trigger] rest[i],
                force_ipv4,
                force_ipv6,
            ) by {
                assert(rest[i] == ips[i + 1]);
            }
        }
    }
}

/// Which families there are among addresses.
pub proof fn law_families_among(ips: &Vec<IpAddr>, r: Families)
    requires
        call_ensures(families, (ips,), r),
    ensures
        r.ipv4 <==> exists|i: int| 0 <= i < ips@.len() && #[trigger] ips@[i] is V4,
        r.ipv6 <==> exists|i: int| 0 <= i < ips@.len() && #[trigger] ips@[i] is V6,
{
    if r.ipv4 {
        let i = choose|i: int| 0 <= i < ips@.len() && of_family(#[trigger] ips@[i], false);
        assert(ips@[i] is V4);
    }
    if exists|i: int| 0 <= i < ips@.len() && #[trigger] ips@[i] is V4 {
        let i = choose|i: int| 0 <= i < ips@.len() && #[trigger] ips@[i] is V4;
        assert(of_family(ips@[i], false));
    }
    if r.ipv6 {
        let i = choose|i: int| 0 <= i < ips@.len() && of_family(#[trigger] ips@[i], true);
        assert(ips@[i] is V6);
    }
    if exists|i: int| 0 <= i < ips@.len() && #[trigger] ips@[i] is V6 {
        let i = choose|i: int| 0 <= i < ips@.len() && #[trigger] ips@[i] is V6;
        assert(of_family(ips@[i], true));
    }
}

/// An interface can be used if it has an address of the only family that is
/// traced; where both are, it is used for the one it has, with a warning for
/// each that it lacks.
pub proof fn law_interface_serves_the_family(info: &InterfaceInfo, f: Families, r: InterfaceCheck)
    requires
        call_ensures(check_interface, (info, f), r),
    ensures
        f.ipv6 && !f.ipv4 ==> ((r is Usable) <==> info.ipv6 is Some),
        f.ipv4 && !f.ipv6 ==> ((r is Usable) <==> info.ipv4 is Some),
        f.ipv4 == f.ipv6 ==> (r is Usable),
        f.ipv4 && f.ipv6 ==> (r matches InterfaceCheck::Usable(w) && w@.len() == (
        if info.ipv4 is None {
            1int
        } else {
            0
        }) + (if info.ipv6 is None {
            1int
        } else {
            0
        })),
{
    if let InterfaceCheck::Usable(w) = r {
        assert(texts(w@).len() == w@.len());
    }
}

/// A source address is accepted only for targets of one family, its own.
pub proof fn law_source_of_the_family(source: &Address, f: Families, r: Option<String>)
    requires
        call_ensures(check_source, (source, f), r),
    ensures
        f.ipv4 && f.ipv6 ==> r is Some,
        f.ipv4 && !f.ipv6 ==> (r is None <==> source.ip is V4),
        f.ipv6 && !f.ipv4 ==> (r is None <==> source.ip is V6),
        !f.ipv4 && !f.ipv6 ==> r is None,
{
}

/// A target is added once, if the source address and the interface are of
/// its family; a receiver is started with the first of a family.
pub proof fn law_target_added_once(
    traced: &Vec<IpAddr>,
    ip: IpAddr,
    source: &Option<Address>,
    interface: &Option<InterfaceInfo>,
    receivers: Families,
    r: AddDecision,
)
    requires
        call_ensures(decide_add, (traced, ip, source, interface, receivers), r),
    ensures
        (r is Existing) <==> traced@.contains(ip),
        !traced@.contains(ip) && (source matches Some(s) && (s.ip is V6) != (ip is V6)) ==> (
        r is Refuse),
        !traced@.contains(ip) && (interface matches Some(i) && (if ip is V6 {
            i.ipv6 is None
        } else {
            i.ipv4 is None
        })) ==> (r is Refuse),
        !traced@.contains(ip) && source is None && interface is None ==> (
        r matches AddDecision::Start { new_receiver } && new_receiver == (if ip is V6 {
            !receivers.ipv6
        } else {
            !receivers.ipv4
        })),
{
    assert(has_ip(traced@, ip) <==> traced@.contains(ip)) by {
        if has_ip(traced@, ip) {
            let i = choose|i: int| 0 <= i < traced@.len() && #[trigger] traced@[i] == ip;
            assert(traced@[i] == ip);
        }
        if traced@.contains(ip) {
            let i = choose|i: int| 0 <= i < traced@.len() && traced@[i] == ip;
            assert(traced@[i] == ip);
        }
    }
}

/// An address is taken up once.
pub proof fn law_taken_up_once(targets: &mut Vec<IpAddr>, ip: IpAddr, r: bool)
    requires
        call_ensures(take_up, (targets, ip), r),
    ensures
        r <==> !old(targets)@.contains(ip),
        final(targets)@.contains(ip),
        r ==> final(targets)@ == old(targets)@.push(ip),
        !r ==> final(targets)@ == old(targets)@,
{
    assert(has_ip(old(targets)@, ip) <==> old(targets)@.contains(ip)) by {
        if has_ip(old(targets)@, ip) {
            let i = choose|i: int|
                0 <= i < old(targets)@.len() && #[trigger] old(targets)@[i] == ip;
            assert(old(targets)@[i] == ip);
        }
        if old(targets)@.contains(ip) {
            let i = choose|i: int| 0 <= i < old(targets)@.len() && old(targets)@[i] == ip;
            assert(old(targets)@[i] == ip);
        }
    }
    if r {
        assert(final(targets)@[old(targets)@.len() as int] == ip);
    }
}

/// The source that is shown is the one configured, else the one of the route
/// unless that says nothing.
pub proof fn law_source_shown(configured: Option<IpAddr>, routed: IpAddr, r: Option<IpAddr>)
    requires
        call_ensures(shown_source, (configured, routed), r),
    ensures
        configured is Some ==> r == configured,
        configured is None ==> (r matches Some(ip) ==> ip == routed),
        configured is None ==> (r is None <==> (routed matches IpAddr::V4(a) && a.bits == 0) || (
        routed matches IpAddr::V6(a) && a.bits == 0)),
{
}

/// An address that was given has a name.
proof fn lemma_has_name(all: Seq<Named>, k: int)
    requires
        0 <= k < all.len(),
    ensures
        names_of(all, all[k].ip).len() > 0,
    decreases all.len(),
{
    if k < all.len() - 1 {
        lemma_has_name(all.drop_last(), k);
    }
}

/// A name that gave an address again stands behind the first.
proof fn lemma_named_again(all: Seq<Named>, k: int, j: int) -> (p: int)
    requires
        0 <= k < j < all.len(),
        all[k].ip == all[j].ip,
    ensures
        1 <= p < names_of(all, all[k].ip).len(),
        names_of(all, all[k].ip)[p] == all[j].name,
    decreases all.len(),
{
    let before = names_of(all.drop_last(), all[k].ip);
    if j == all.len() - 1 {
        lemma_has_name(all.drop_last(), k);
        before.len() as int
    } else {
        lemma_named_again(all.drop_last(), k, j)
    }
}

/// Every further name that gives an address is another name of its target.
pub proof fn law_further_names_are_aliases(all: Seq<Named>, k: int, j: int)
    requires
        0 <= k < j < all.len(),
        all[k].ip == all[j].ip,
    ensures
        target_of(all, all[k].ip).ip == all[k].ip,
        target_of(all, all[k].ip).aliases.contains(all[j].name),
{
    let p = lemma_named_again(all, k, j);
    let aliases = target_of(all, all[k].ip).aliases;
    assert(aliases[p - 1] == all[j].name);
}

} // verus!
