//! Comparing two sessions hop by hop.

use crate::export::compare::{
    addresses_not_in, addresses_of, has_address, in_order, law_not_in, not_in, ordered_addresses,
};
use crate::session::{address_views, Address, AddressView, Hop, Session};
use crate::text::{copy_of, copy_opt, opt_text};
use vstd::prelude::*;

verus! {

/// How a hop changed between the two sessions.
#[derive(Debug, Clone, Copy, PartialEq, Eq, Structural)]
pub enum HopChange {
    /// Responds in both sessions with the same primary responder.
    Unchanged,
    /// The primary responder differs between sessions.
    PathChange,
    /// Responds only in the after session.
    Added,
    /// Responds only in the before session.
    Lost,
}

/// A responding hop in one session.
#[derive(Debug, Clone)]
pub struct HopSnapshot {
    pub primary: Option<Address>,
    pub hostname: Option<String>,
    /// Average round trip of the primary responder in milliseconds, as text.
    pub avg_rtt_ms: Option<String>,
    /// Loss in percent, as text.
    pub loss_pct: String,
    /// All responders seen at this hop, in order.
    pub responders: Vec<Address>,
}

/// A responding hop by its values.
pub struct SnapshotView {
    pub primary: Option<AddressView>,
    pub hostname: Option<Seq<char>>,
    pub avg_rtt_ms: Option<Seq<char>>,
    pub loss_pct: Seq<char>,
    pub responders: Seq<AddressView>,
}

/// An optional address by its value.
pub open spec fn opt_address(a: Option<Address>) -> Option<AddressView> {
    match a {
        Some(x) => Some(x@),
        None => None,
    }
}

impl View for HopSnapshot {
    type V = SnapshotView;

    open spec fn view(&self) -> SnapshotView {
        SnapshotView {
            primary: opt_address(self.primary),
            hostname: opt_text(self.hostname),
            avg_rtt_ms: opt_text(self.avg_rtt_ms),
            loss_pct: self.loss_pct@,
            responders: address_views(self.responders@),
        }
    }
}

/// What a hop shows of itself, if it responded at least once.
pub open spec fn snapshot(hop: Hop) -> Option<SnapshotView> {
    if hop.received == 0 {
        None
    } else {
        Some(
            SnapshotView {
                primary: opt_address(hop.primary),
                hostname: match hop.shown() {
                    Some(stats) => opt_text(stats.hostname),
                    None => None,
                },
                avg_rtt_ms: match hop.shown() {
                    Some(stats) => Some(stats.figures.avg@),
                    None => None,
                },
                loss_pct: hop.loss@,
                responders: in_order(addresses_of(hop.responders@)),
            },
        )
    }
}

/// An optional snapshot by its values.
pub open spec fn opt_snapshot(s: Option<HopSnapshot>) -> Option<SnapshotView> {
    match s {
        Some(x) => Some(x@),
        None => None,
    }
}

impl HopSnapshot {
    /// What a hop shows of itself, if it responded at least once.
    pub fn from_hop(hop: &Hop) -> (r: Option<HopSnapshot>)
        ensures
            opt_snapshot(r) == snapshot(*hop),
    {
        if hop.received == 0 {
            return None;
        }
        let mut hostname: Option<String> = None;
        let mut avg: Option<String> = None;
        if let Some(stats) = hop.primary_stats() {
            hostname = copy_opt(&stats.hostname);
            avg = Some(copy_of(stats.figures.avg.as_str()));
        }
        Some(
            HopSnapshot {
                primary: match &hop.primary {
                    Some(a) => Some(a.copy()),
                    None => None,
                },
                hostname,
                avg_rtt_ms: avg,
                loss_pct: copy_of(hop.loss.as_str()),
                responders: ordered_addresses(&hop.responders),
            },
        )
    }
}

/// The difference at one TTL.
#[derive(Debug, Clone)]
pub struct HopDiff {
    pub ttl: u8,
    pub change: HopChange,
    pub before: Option<HopSnapshot>,
    pub after: Option<HopSnapshot>,
    /// Whether the average round trip shifted beyond both thresholds.
    pub rtt_significant: bool,
    pub responders_added: Vec<Address>,
    pub responders_removed: Vec<Address>,
}

/// The difference at one TTL by its values.
pub struct HopDiffView {
    pub ttl: u8,
    pub change: HopChange,
    pub before: Option<SnapshotView>,
    pub after: Option<SnapshotView>,
    pub rtt_significant: bool,
    pub responders_added: Seq<AddressView>,
    pub responders_removed: Seq<AddressView>,
}

impl View for HopDiff {
    type V = HopDiffView;

    open spec fn view(&self) -> HopDiffView {
        HopDiffView {
            ttl: self.ttl,
            change: self.change,
            before: opt_snapshot(self.before),
            after: opt_snapshot(self.after),
            rtt_significant: self.rtt_significant,
            responders_added: address_views(self.responders_added@),
            responders_removed: address_views(self.responders_removed@),
        }
    }
}

/// Differences by their values.
pub open spec fn diff_views(v: Seq<HopDiff>) -> Seq<HopDiffView> {
    Seq::new(v.len(), |i: int| v[i]@)
}

/// The address of an optional snapshot's primary responder.
pub open spec fn primary_ip(s: SnapshotView) -> Option<crate::addr::IpAddr> {
    match s.primary {
        Some(a) => Some(a.ip),
        None => None,
    }
}

/// How a hop changed; nothing is said of one that is silent on both sides.
pub open spec fn change_of(before: Option<SnapshotView>, after: Option<SnapshotView>) -> Option<
    HopChange,
> {
    match (before, after) {
        (None, None) => None,
        (None, Some(_)) => Some(HopChange::Added),
        (Some(_), None) => Some(HopChange::Lost),
        (Some(b), Some(a)) => Some(
            if primary_ip(b) == primary_ip(a) {
                HopChange::Unchanged
            } else {
                HopChange::PathChange
            },
        ),
    }
}

/// Whether both sides have a round-trip time.
pub open spec fn both_timed(before: Option<SnapshotView>, after: Option<SnapshotView>) -> bool {
    match (before, after) {
        (Some(b), Some(a)) => b.avg_rtt_ms is Some && a.avg_rtt_ms is Some,
        _ => false,
    }
}

/// The difference at a TTL. `shifted` says whether the two averages differ by
/// more than the thresholds.
pub open spec fn hop_diff(
    ttl: u8,
    before: Option<SnapshotView>,
    after: Option<SnapshotView>,
    shifted: bool,
) -> Option<HopDiffView> {
    match change_of(before, after) {
        None => None,
        Some(change) => Some(
            HopDiffView {
                ttl,
                change,
                before,
                after,
                rtt_significant: shifted && both_timed(before, after),
                responders_added: match (before, after) {
                    (Some(b), Some(a)) => not_in(a.responders, b.responders),
                    _ => Seq::empty(),
                },
                responders_removed: match (before, after) {
                    (Some(b), Some(a)) => not_in(b.responders, a.responders),
                    _ => Seq::empty(),
                },
            },
        ),
    }
}

/// What place `i` of the hops of a session shows.
pub open spec fn snapshot_at(hops: Seq<Hop>, i: int) -> Option<SnapshotView> {
    if 0 <= i < hops.len() {
        snapshot(hops[i])
    } else {
        None
    }
}

/// Whether place `i` is marked.
pub open spec fn marked(marks: Seq<bool>, i: int) -> bool {
    0 <= i < marks.len() && marks[i]
}

/// The differences of the first `n` places.
pub open spec fn hop_diffs(
    before: Seq<Hop>,
    after: Seq<Hop>,
    shifted: Seq<bool>,
    n: nat,
) -> Seq<HopDiffView>
    decreases n,
{
    if n == 0 {
        Seq::empty()
    } else {
        let rest = hop_diffs(before, after, shifted, (n - 1) as nat);
        match hop_diff(
            (n % 256) as u8,
            snapshot_at(before, n - 1),
            snapshot_at(after, n - 1),
            marked(shifted, n - 1),
        ) {
            Some(d) => rest.push(d),
            None => rest,
        }
    }
}

/// The longer of two lengths.
pub open spec fn longer(a: nat, b: nat) -> nat {
    if a >= b {
        a
    } else {
        b
    }
}

/// The difference between two sessions.
#[derive(Debug, Clone)]
pub struct SessionDiff {
    pub before_file: String,
    pub after_file: String,
    pub target_before: String,
    pub target_after: String,
    /// Seconds since 1970.
    pub started_before: i64,
    /// Seconds since 1970.
    pub started_after: i64,
    pub complete_before: bool,
    pub complete_after: bool,
    pub dest_ttl_before: Option<u8>,
    pub dest_ttl_after: Option<u8>,
    /// Hops that responded in at least one session.
    pub hops: Vec<HopDiff>,
}

/// How many differences are of a kind.
pub open spec fn count_of(hops: Seq<HopDiffView>, change: HopChange) -> nat
    decreases hops.len(),
{
    if hops.len() == 0 {
        0
    } else {
        count_of(hops.drop_last(), change) + (if hops.last().change == change {
            1nat
        } else {
            0
        })
    }
}

/// How many differences have a significant shift.
pub open spec fn shifts_of(hops: Seq<HopDiffView>) -> nat
    decreases hops.len(),
{
    if hops.len() == 0 {
        0
    } else {
        shifts_of(hops.drop_last()) + (if hops.last().rtt_significant {
            1nat
        } else {
            0
        })
    }
}

/// Whether a hop differs in anything but an insignificant shift.
pub open spec fn hop_changed(d: HopDiffView) -> bool {
    d.rtt_significant || d.change != HopChange::Unchanged || d.responders_added.len() > 0
        || d.responders_removed.len() > 0
}

/// Whether any hop differs.
pub open spec fn any_changed(hops: Seq<HopDiffView>) -> bool {
    exists|i: int| 0 <= i < hops.len() && hop_changed(#[trigger] hops[i])
}

impl SessionDiff {
    /// How many hops changed in a certain way.
    pub fn count(&self, change: HopChange) -> (r: usize)
        ensures
            r == count_of(diff_views(self.hops@), change),
            r <= self.hops@.len(),
    {
        let ghost all = diff_views(self.hops@);
        let mut n: usize = 0;
        let mut i: usize = 0;
        assert(all.take(0) =~= Seq::empty());
        while i < self.hops.len()
            invariant
                i <= self.hops.len(),
                n <= i,
                all == diff_views(self.hops@),
                n == count_of(all.take(i as int), change),
            decreases self.hops.len() - i,
        {
            assert(all.take(i + 1).drop_last() =~= all.take(i as int));
            if self.hops[i].change == change {
                n = n + 1;
            }
            i = i + 1;
        }
        assert(all.take(all.len() as int) =~= all);
        n
    }

    /// How many hops have a significant shift of their round-trip time.
    pub fn rtt_shifts(&self) -> (r: usize)
        ensures
            r == shifts_of(diff_views(self.hops@)),
            r <= self.hops@.len(),
    {
        let ghost all = diff_views(self.hops@);
        let mut n: usize = 0;
        let mut i: usize = 0;
        assert(all.take(0) =~= Seq::empty());
        while i < self.hops.len()
            invariant
                i <= self.hops.len(),
                n <= i,
                all == diff_views(self.hops@),
                n == shifts_of(all.take(i as int)),
            decreases self.hops.len() - i,
        {
            assert(all.take(i + 1).drop_last() =~= all.take(i as int));
            if self.hops[i].rtt_significant {
                n = n + 1;
            }
            i = i + 1;
        }
        assert(all.take(all.len() as int) =~= all);
        n
    }

    /// Whether anything changed: path, hop presence, responders or significant
    /// latency.
    pub fn has_changes(&self) -> (r: bool)
        ensures
            r == any_changed(diff_views(self.hops@)),
    {
        let ghost all = diff_views(self.hops@);
        let mut i: usize = 0;
        while i < self.hops.len()
            invariant
                i <= self.hops.len(),
                all == diff_views(self.hops@),
                forall|j: int| 0 <= j < i ==> !hop_changed(#[trigger] all[j]),
            decreases self.hops.len() - i,
        {
            let d: &HopDiff = &self.hops[i];
            let unchanged: bool = d.change == HopChange::Unchanged;
            if d.rtt_significant || !unchanged || d.responders_added.len() > 0
                || d.responders_removed.len() > 0 {
                assert(hop_changed(all[i as int]));
                return true;
            }
            assert(!hop_changed(all[i as int]));
            i = i + 1;
        }
        false
    }
}

/// Whether two snapshots have the same primary responder.
fn same_primary(b: &HopSnapshot, a: &HopSnapshot) -> (r: bool)
    ensures
        r == (primary_ip(b@) == primary_ip(a@)),
{
    match (&b.primary, &a.primary) {
        (Some(x), Some(y)) => x.ip == y.ip,
        (None, None) => true,
        _ => false,
    }
}

/// The low byte of a number.
fn low_byte(n: usize) -> (r: u8)
    ensures
        r == n % 256,
{
    (n % 256) as u8
}

/// The difference at a TTL.
fn compare_hop(
    ttl: u8,
    before: Option<HopSnapshot>,
    after: Option<HopSnapshot>,
    shifted: bool,
) -> (r: Option<HopDiff>)
    ensures
        match hop_diff(ttl, opt_snapshot(before), opt_snapshot(after), shifted) {
            Some(d) => r is Some && r->0@ == d,
            None => r is None,
        },
{
    let ghost b0 = opt_snapshot(before);
    let ghost a0 = opt_snapshot(after);
    let mut change: HopChange = HopChange::Unchanged;
    let mut added: Vec<Address> = Vec::new();
    let mut removed: Vec<Address> = Vec::new();
    let mut significant: bool = false;
    match (&before, &after) {
        (None, None) => {
            return None;
        },
        (None, Some(_)) => {
            change = HopChange::Added;
        },
        (Some(_), None) => {
            change = HopChange::Lost;
        },
        (Some(b), Some(a)) => {
            if !same_primary(b, a) {
                change = HopChange::PathChange;
            }
            added = addresses_not_in(&a.responders, &b.responders);
            removed = addresses_not_in(&b.responders, &a.responders);
            significant = shifted && b.avg_rtt_ms.is_some() && a.avg_rtt_ms.is_some();
        },
    }
    proof {
        if b0 is None || a0 is None {
            assert(address_views(added@) =~= Seq::empty());
            assert(address_views(removed@) =~= Seq::empty());
        }
    }
    Some(
        HopDiff {
            ttl,
            change,
            before,
            after,
            rtt_significant: significant,
            responders_added: added,
            responders_removed: removed,
        },
    )
}

/// Compares two sessions hop by hop. `shifted` says, place by place, whether
/// the average round-trip times differ by more than the thresholds; it counts
/// only where both sides have one.
pub fn diff_sessions(
    before: &Session,
    after: &Session,
    before_file: &str,
    after_file: &str,
    shifted: &Vec<bool>,
) -> (r: SessionDiff)
    ensures
        r.before_file@ == before_file@,
        r.after_file@ == after_file@,
        r.target_before@ == before.target.display@,
        r.target_after@ == after.target.display@,
        r.started_before == before.started_at,
        r.started_after == after.started_at,
        r.complete_before == before.complete,
        r.complete_after == after.complete,
        r.dest_ttl_before == before.dest_ttl,
        r.dest_ttl_after == after.dest_ttl,
        diff_views(r.hops@) == hop_diffs(
            before.hops@,
            after.hops@,
            shifted@,
            longer(before.hops@.len(), after.hops@.len()),
        ),
{
    let n: usize = if before.hops.len() >= after.hops.len() {
        before.hops.len()
    } else {
        after.hops.len()
    };
    let mut hops: Vec<HopDiff> = Vec::new();
    let mut i: usize = 0;
    assert(diff_views(hops@) =~= Seq::empty());
    while i < n
        invariant
            i <= n,
            diff_views(hops@) == hop_diffs(before.hops@, after.hops@, shifted@, i as nat),
        decreases n - i,
    {
        let b: Option<HopSnapshot> = if i < before.hops.len() {
            HopSnapshot::from_hop(&before.hops[i])
        } else {
            None
        };
        let a: Option<HopSnapshot> = if i < after.hops.len() {
            HopSnapshot::from_hop(&after.hops[i])
        } else {
            None
        };
        let mark: bool = i < shifted.len() && shifted[i];
        let ghost so_far = diff_views(hops@);
        if let Some(d) = compare_hop(low_byte(i + 1), b, a, mark) {
            let ghost view = d@;
            hops.push(d);
            assert(diff_views(hops@) =~= so_far.push(view));
        }
        i = i + 1;
    }
    SessionDiff {
        before_file: copy_of(before_file),
        after_file: copy_of(after_file),
        target_before: copy_of(before.target.display.as_str()),
        target_after: copy_of(after.target.display.as_str()),
        started_before: before.started_at,
        started_after: after.started_at,
        complete_before: before.complete,
        complete_after: after.complete,
        dest_ttl_before: before.dest_ttl,
        dest_ttl_after: after.dest_ttl,
        hops,
    }
}

/// Nothing is missing from a set that has it.
proof fn lemma_not_in_self(s: Seq<AddressView>, all: Seq<AddressView>)
    requires
        forall|i: int| 0 <= i < s.len() ==> has_address(all, #[trigger] s[i].ip),
    ensures
        not_in(s, all).len() == 0,
    decreases s.len(),
{
    if s.len() > 0 {
        assert(has_address(all, s[s.len() - 1].ip));
        assert forall|i: int| 0 <= i < s.drop_last().len() implies has_address(
            all,
            #[trigger] s.drop_last()[i].ip,
        ) by {
            assert(has_address(all, s[i].ip));
        }
        lemma_not_in_self(s.drop_last(), all);
    }
}

/// A session compared with itself shows no change.
pub proof fn law_same_session_unchanged(hops: Seq<Hop>, n: nat)
    ensures
        !any_changed(hop_diffs(hops, hops, Seq::empty(), n)),
        count_of(hop_diffs(hops, hops, Seq::empty(), n), HopChange::PathChange) == 0,
        count_of(hop_diffs(hops, hops, Seq::empty(), n), HopChange::Added) == 0,
        count_of(hop_diffs(hops, hops, Seq::empty(), n), HopChange::Lost) == 0,
        shifts_of(hop_diffs(hops, hops, Seq::empty(), n)) == 0,
    decreases n,
{
    if n > 0 {
        law_same_session_unchanged(hops, (n - 1) as nat);
        let rest = hop_diffs(hops, hops, Seq::empty(), (n - 1) as nat);
        let s = snapshot_at(hops, n - 1);
        match hop_diff((n % 256) as u8, s, s, marked(Seq::empty(), n - 1)) {
            Some(d) => {
                let r = s->0.responders;
                assert forall|i: int| 0 <= i < r.len() implies has_address(r, #[trigger] r[i].ip)
                    by {}
                lemma_not_in_self(r, r);
                assert(!hop_changed(d));
                let all = rest.push(d);
                assert(all.drop_last() =~= rest);
                assert forall|i: int| 0 <= i < all.len() implies !hop_changed(#[trigger] all[i]) by {
                    if i < rest.len() {
                        assert(all[i] == rest[i]);
                    }
                }
            },
            None => {},
        }
    }
}

/// A change seen from the other side.
pub open spec fn swapped_change(change: HopChange) -> HopChange {
    match change {
        HopChange::Unchanged => HopChange::Unchanged,
        HopChange::PathChange => HopChange::PathChange,
        HopChange::Added => HopChange::Lost,
        HopChange::Lost => HopChange::Added,
    }
}

/// The difference at a TTL seen from the other side.
pub open spec fn swapped(d: HopDiffView) -> HopDiffView {
    HopDiffView {
        ttl: d.ttl,
        change: swapped_change(d.change),
        before: d.after,
        after: d.before,
        rtt_significant: d.rtt_significant,
        responders_added: d.responders_removed,
        responders_removed: d.responders_added,
    }
}

/// With the sessions swapped the same TTLs are reported in the same order.
/// At each, what was added is lost and what was lost is added, the two sides
/// change places, and so do the responders that came and those that went.
/// Whether a round trip has shifted stays as it is where the marks do.
pub proof fn law_swapped_sessions(
    a: Seq<Hop>,
    b: Seq<Hop>,
    shifted: Seq<bool>,
    shifted_back: Seq<bool>,
    n: nat,
)
    ensures
        ({
            let x = hop_diffs(a, b, shifted, n);
            let y = hop_diffs(b, a, shifted_back, n);
            &&& x.len() == y.len()
            &&& forall|i: int|
                0 <= i < x.len() ==> #[trigger] y[i] == (HopDiffView {
                    rtt_significant: y[i].rtt_significant,
                    ..swapped(x[i])
                })
            &&& count_of(x, HopChange::Added) == count_of(y, HopChange::Lost)
            &&& count_of(x, HopChange::Lost) == count_of(y, HopChange::Added)
            &&& count_of(x, HopChange::PathChange) == count_of(y, HopChange::PathChange)
            &&& shifted == shifted_back ==> shifts_of(x) == shifts_of(y) && forall|i: int|
                0 <= i < x.len() ==> #[trigger] y[i] == swapped(x[i])
        }),
    decreases n,
{
    if n > 0 {
        law_swapped_sessions(a, b, shifted, shifted_back, (n - 1) as nat);
        let x = hop_diffs(a, b, shifted, (n - 1) as nat);
        let y = hop_diffs(b, a, shifted_back, (n - 1) as nat);
        let sa = snapshot_at(a, n - 1);
        let sb = snapshot_at(b, n - 1);
        if let Some(d) = hop_diff((n % 256) as u8, sa, sb, marked(shifted, n - 1)) {
            assert(x.push(d).drop_last() =~= x);
        }
        if let Some(e) = hop_diff((n % 256) as u8, sb, sa, marked(shifted_back, n - 1)) {
            assert(y.push(e).drop_last() =~= y);
        }
    }
}

/// A hop is reported exactly if it responded in one of the sessions.
pub proof fn law_silent_hops_skipped(
    ttl: u8,
    before: Option<SnapshotView>,
    after: Option<SnapshotView>,
    shifted: bool,
)
    ensures
        hop_diff(ttl, before, after, shifted) is Some <==> before is Some || after is Some,
{
}

/// Where both sessions respond, a responder is reported as added exactly if
/// only the later one has it, and as removed exactly if only the earlier one
/// has it.
pub proof fn law_responder_changes(
    ttl: u8,
    before: SnapshotView,
    after: SnapshotView,
    shifted: bool,
    ip: crate::addr::IpAddr,
)
    ensures
        hop_diff(ttl, Some(before), Some(after), shifted) matches Some(d) && has_address(
            d.responders_added,
            ip,
        ) == (has_address(after.responders, ip) && !has_address(before.responders, ip))
            && has_address(d.responders_removed, ip) == (has_address(before.responders, ip)
            && !has_address(after.responders, ip)),
{
    law_not_in(after.responders, before.responders, ip);
    law_not_in(before.responders, after.responders, ip);
}

/// What is compared of a hop is known only if it has answered: its primary
/// responder with its name and average, its loss, and all that have answered.
pub proof fn law_snapshot_of_hop(hop: &Hop, r: Option<HopSnapshot>, ip: crate::addr::IpAddr)
    requires
        call_ensures(HopSnapshot::from_hop, (hop,), r),
    ensures
        r is Some <==> hop.received > 0,
        r matches Some(s) ==> {
            &&& opt_address(s.primary) == opt_address(hop.primary)
            &&& s.loss_pct@ == hop.loss@
            &&& hop.shown() matches Some(stats) ==> (s.avg_rtt_ms matches Some(avg) && avg@
                == stats.figures.avg@) && opt_text(s.hostname) == opt_text(stats.hostname)
            &&& hop.shown() is None ==> s.avg_rtt_ms is None && s.hostname is None
            &&& has_address(address_views(s.responders@), ip) <==> exists|i: int|
                0 <= i < hop.responders@.len() && (#[trigger] hop.responders@[i]).address.ip == ip
        },
{
    if let Some(s) = r {
        assert(opt_snapshot(r) == Some(s@));
        let all = addresses_of(hop.responders@);
        let sorted = in_order(all);
        crate::export::compare::law_in_order(all);
        assert(address_views(s.responders@) == sorted);
        assert(has_address(sorted, ip) <==> has_address(all, ip)) by {
            if has_address(sorted, ip) {
                let i = choose|i: int| 0 <= i < sorted.len() && #[trigger] sorted[i].ip == ip;
                assert(sorted.to_multiset().count(sorted[i]) > 0) by {
                    sorted.to_multiset_ensures();
                    assert(sorted.contains(sorted[i]));
                }
                all.to_multiset_ensures();
                assert(all.contains(sorted[i]));
                let j = choose|j: int| 0 <= j < all.len() && all[j] == sorted[i];
                assert(all[j].ip == ip);
            }
            if has_address(all, ip) {
                let i = choose|i: int| 0 <= i < all.len() && #[trigger] all[i].ip == ip;
                all.to_multiset_ensures();
                assert(all.contains(all[i]));
                assert(all.to_multiset().count(all[i]) > 0);
                sorted.to_multiset_ensures();
                assert(sorted.contains(all[i]));
                let j = choose|j: int| 0 <= j < sorted.len() && sorted[j] == all[i];
                assert(sorted[j].ip == ip);
            }
        }
        if has_address(all, ip) {
            let i = choose|i: int| 0 <= i < all.len() && #[trigger] all[i].ip == ip;
            assert(hop.responders@[i].address.ip == ip);
        }
        if exists|i: int|
            0 <= i < hop.responders@.len() && (#[trigger] hop.responders@[i]).address.ip == ip {
            let i = choose|i: int|
                0 <= i < hop.responders@.len() && (#[trigger] hop.responders@[i]).address.ip == ip;
            assert(all[i].ip == ip);
        }
    }
}

/// Hops are compared at the same distance. One that answers only afterwards
/// was added, one that answered only before was lost; one that answers both
/// times is the same if its primary responder is, and its path has changed if
/// not. One that never answers is not mentioned.
pub proof fn law_hops_compared_at_distance(
    before: &Session,
    after: &Session,
    before_file: &str,
    after_file: &str,
    shifted: &Vec<bool>,
    r: SessionDiff,
    n: int,
)
    requires
        call_ensures(diff_sessions, (before, after, before_file, after_file, shifted), r),
        0 <= n < 255,
        n < before.hops@.len() || n < after.hops@.len(),
        before.hops@.len() <= 255,
        after.hops@.len() <= 255,
    ensures
        ({
            let was = n < before.hops@.len() && before.hops@[n].received > 0;
            let now = n < after.hops@.len() && after.hops@[n].received > 0;
            let d = diff_views(r.hops@);
            &&& was || now ==> exists|k: int|
                0 <= k < d.len() && (#[trigger] d[k]).ttl == n + 1 && {
                    &&& d[k].change == HopChange::Added <==> !was && now
                    &&& d[k].change == HopChange::Lost <==> was && !now
                    &&& d[k].before is Some <==> was
                    &&& d[k].after is Some <==> now
                    &&& was && now ==> (d[k].change == HopChange::Unchanged <==> opt_ip(
                        before.hops@[n].primary,
                    ) == opt_ip(after.hops@[n].primary))
                    &&& was && now && !(n < shifted@.len() && shifted@[n])
                        ==> !d[k].rtt_significant
                }
            &&& !was && !now ==> forall|k: int| 0 <= k < d.len() ==> (#[trigger] d[k]).ttl != n + 1
        }),
{
    let total = longer(before.hops@.len(), after.hops@.len());
    lemma_diff_at(before.hops@, after.hops@, shifted@, total, n);
}

/// The address of an optional responder.
pub open spec fn opt_ip(a: Option<Address>) -> Option<crate::addr::IpAddr> {
    match a {
        Some(x) => Some(x.ip),
        None => None,
    }
}

/// What is said of a hop among the first `total`.
proof fn lemma_diff_at(a: Seq<Hop>, b: Seq<Hop>, shifted: Seq<bool>, total: nat, n: int)
    requires
        0 <= n,
        total <= 255,
    ensures
        ({
            let d = hop_diffs(a, b, shifted, total);
            let own = hop_diff(
                ((n + 1) % 256) as u8,
                snapshot_at(a, n),
                snapshot_at(b, n),
                marked(shifted, n),
            );
            &&& forall|k: int| 0 <= k < d.len() ==> 1 <= (#[trigger] d[k]).ttl <= total
            &&& n < total && own is Some ==> exists|k: int|
                0 <= k < d.len() && #[trigger] d[k] == own->0
            &&& n < total && own is None ==> forall|k: int|
                0 <= k < d.len() ==> (#[trigger] d[k]).ttl != n + 1
        }),
    decreases total,
{
    if total > 0 {
        let less = (total - 1) as nat;
        lemma_diff_at(a, b, shifted, less, n);
        let rest = hop_diffs(a, b, shifted, less);
        let d = hop_diffs(a, b, shifted, total);
        let last = hop_diff(
            (total % 256) as u8,
            snapshot_at(a, total - 1),
            snapshot_at(b, total - 1),
            marked(shifted, total - 1),
        );
        if n == total - 1 {
            if last is Some {
                assert(d[rest.len() as int] == last->0);
            }
        } else if n < total - 1 {
            let own = hop_diff(
                ((n + 1) % 256) as u8,
                snapshot_at(a, n),
                snapshot_at(b, n),
                marked(shifted, n),
            );
            if own is Some {
                let k = choose|k: int| 0 <= k < rest.len() && #[trigger] rest[k] == own->0;
                assert(d[k] == own->0);
            }
        }
    }
}

/// Which session is before and which is after is kept, with its file, target,
/// start, end and distance.
pub proof fn law_sides_are_kept(
    before: &Session,
    after: &Session,
    before_file: &str,
    after_file: &str,
    shifted: &Vec<bool>,
    r: SessionDiff,
)
    requires
        call_ensures(diff_sessions, (before, after, before_file, after_file, shifted), r),
    ensures
        r.before_file@ == before_file@ && r.after_file@ == after_file@,
        r.target_before@ == before.target.display@ && r.target_after@ == after.target.display@,
        r.started_before == before.started_at && r.started_after == after.started_at,
        r.complete_before == before.complete && r.complete_after == after.complete,
        r.dest_ttl_before == before.dest_ttl && r.dest_ttl_after == after.dest_ttl,
{
}

/// Changes are counted by their kind, and there are changes exactly if some
/// hop was added or lost, has another path, other responders, or a latency
/// that has shifted.
pub proof fn law_changes_counted(
    diff: &SessionDiff,
    change: HopChange,
    n: usize,
    shifts: usize,
    any: bool,
)
    requires
        call_ensures(SessionDiff::count, (diff, change), n),
        call_ensures(SessionDiff::rtt_shifts, (diff,), shifts),
        call_ensures(SessionDiff::has_changes, (diff,), any),
    ensures
        n == diff.hops@.filter(|d: HopDiff| d.change == change).len(),
        shifts == diff.hops@.filter(|d: HopDiff| d.rtt_significant).len(),
        any <==> exists|i: int|
            0 <= i < diff.hops@.len() && ((#[trigger] diff.hops@[i]).change != HopChange::Unchanged
                || diff.hops@[i].rtt_significant || diff.hops@[i].responders_added@.len() > 0
                || diff.hops@[i].responders_removed@.len() > 0),
{
    lemma_counted(diff.hops@, change);
    let views = diff_views(diff.hops@);
    if any {
        let i = choose|i: int| 0 <= i < views.len() && hop_changed(#[trigger] views[i]);
        assert(views[i] == diff.hops@[i]@);
    }
    if exists|i: int|
        0 <= i < diff.hops@.len() && ((#[trigger] diff.hops@[i]).change != HopChange::Unchanged
            || diff.hops@[i].rtt_significant || diff.hops@[i].responders_added@.len() > 0
            || diff.hops@[i].responders_removed@.len() > 0) {
        let i = choose|i: int|
            0 <= i < diff.hops@.len() && ((#[trigger] diff.hops@[i]).change != HopChange::Unchanged
                || diff.hops@[i].rtt_significant || diff.hops@[i].responders_added@.len() > 0
                || diff.hops@[i].responders_removed@.len() > 0);
        assert(views[i] == diff.hops@[i]@);
        assert(hop_changed(views[i]));
    }
}

/// Counting is filtering.
pub proof fn lemma_counted(hops: Seq<HopDiff>, change: HopChange)
    ensures
        count_of(diff_views(hops), change) == hops.filter(|d: HopDiff| d.change == change).len(),
        shifts_of(diff_views(hops)) == hops.filter(|d: HopDiff| d.rtt_significant).len(),
    decreases hops.len(),
{
    reveal(Seq::filter);
    if hops.len() > 0 {
        lemma_counted(hops.drop_last(), change);
        assert(diff_views(hops).drop_last() =~= diff_views(hops.drop_last()));
    }
}

} // verus!
