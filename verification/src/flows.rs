//! How many flows a trace can use.

use crate::addr::IpAddr;
use crate::config::{Config, ProbeProtocol};
use crate::probe::interface::InterfaceInfo;
use crate::resolve::{families, has_family, Families};
use crate::session::{session_of, Session};
use crate::text::opt_text;
use crate::trace::receiver::{configured, receiver_config, ReceiverConfig};
use vstd::prelude::*;

verus! {

/// How many flows a protocol gives: ICMP has one only. Automatic choice takes
/// ICMP where its socket can be made.
pub open spec fn flows_of(config: Config, echo_works: bool) -> u8 {
    if config.flows <= 1 {
        config.flows
    } else {
        match config.protocol {
            ProbeProtocol::Icmp => 1,
            ProbeProtocol::Auto => if echo_works {
                1
            } else {
                config.flows
            },
            ProbeProtocol::Udp | ProbeProtocol::Tcp => config.flows,
        }
    }
}

/// Whether the number of flows depends on what sockets can be made.
pub fn needs_socket_check(config: &Config) -> (r: bool)
    ensures
        !r ==> flows_of(*config, true) == flows_of(*config, false),
        r == (config.flows > 1 && config.protocol == ProbeProtocol::Auto),
{
    config.flows > 1 && match config.protocol {
        ProbeProtocol::Auto => true,
        _ => false,
    }
}

/// How many flows a trace uses; `echo_works` says whether an ICMP socket of
/// its family can be made.
pub fn effective_flow_count_for_family(config: &Config, echo_works: bool) -> (r: u8)
    ensures
        r == flows_of(*config, echo_works),
{
    if config.flows <= 1 {
        return config.flows;
    }
    match config.protocol {
        ProbeProtocol::Icmp => 1,
        ProbeProtocol::Auto => if echo_works {
            1
        } else {
            config.flows
        },
        ProbeProtocol::Udp | ProbeProtocol::Tcp => config.flows,
    }
}

/// What is known of a family's flows, or else found out.
pub open spec fn known_or(known: Option<u8>, found: u8) -> u8 {
    match known {
        Some(n) => n,
        None => found,
    }
}

/// How many flows the family of an address uses. It is found out once for
/// each family.
pub fn effective_flow_count_for_ip_cached(
    config: &Config,
    ip: IpAddr,
    echo_works: bool,
    cached_v4: &mut Option<u8>,
    cached_v6: &mut Option<u8>,
) -> (r: u8)
    ensures
        ip is V6 ==> r == known_or(*old(cached_v6), flows_of(*config, echo_works)) && *final(
            cached_v6) == Some(r) && *final(cached_v4) == *old(cached_v4),
        ip is V4 ==> r == known_or(*old(cached_v4), flows_of(*config, echo_works)) && *final(
            cached_v4) == Some(r) && *final(cached_v6) == *old(cached_v6),
{
    match ip {
        IpAddr::V6(_) => match *cached_v6 {
            Some(n) => n,
            None => {
                let n: u8 = effective_flow_count_for_family(config, echo_works);
                *cached_v6 = Some(n);
                n
            },
        },
        IpAddr::V4(_) => match *cached_v4 {
            Some(n) => n,
            None => {
                let n: u8 = effective_flow_count_for_family(config, echo_works);
                *cached_v4 = Some(n);
                n
            },
        },
    }
}

/// The configuration of a target: with the flows that its family uses.
pub fn config_for_target_effective_flows(
    base: &Config,
    target: IpAddr,
    echo_works: bool,
    cached_v4: &mut Option<u8>,
    cached_v6: &mut Option<u8>,
) -> (r: Config)
    ensures
        opt_text(r.interface) == opt_text(base.interface),
        r == (Config { flows: r.flows, interface: r.interface, ..*base }),
        target is V6 ==> r.flows == known_or(*old(cached_v6), flows_of(*base, echo_works))
            && *final(cached_v6) == Some(r.flows) && *final(cached_v4) == *old(cached_v4),
        target is V4 ==> r.flows == known_or(*old(cached_v4), flows_of(*base, echo_works))
            && *final(cached_v4) == Some(r.flows) && *final(cached_v6) == *old(cached_v6),
{
    let flows: u8 = effective_flow_count_for_ip_cached(
        base,
        target,
        echo_works,
        cached_v4,
        cached_v6,
    );
    base.with_flows(flows)
}

/// Whether an address is of a family.
pub open spec fn of_family(ip: IpAddr, ipv6: bool) -> bool {
    (ip is V6) == ipv6
}

/// The first target of a family.
pub open spec fn first_of_family(targets: Seq<IpAddr>, ipv6: bool) -> Option<IpAddr>
    decreases targets.len(),
{
    if targets.len() == 0 {
        None
    } else if of_family(targets[0], ipv6) {
        Some(targets[0])
    } else {
        first_of_family(targets.skip(1), ipv6)
    }
}

/// The flows that the session of the first target of a family uses, or the
/// default where there is none.
pub open spec fn family_flows(
    sessions: Seq<Session>,
    targets: Seq<IpAddr>,
    ipv6: bool,
    default_flows: u8,
) -> u8 {
    match first_of_family(targets, ipv6) {
        Some(ip) => match session_of(sessions, ip) {
            Some(session) => session.config.flows,
            None => default_flows,
        },
        None => default_flows,
    }
}

/// The flows that the session of the first target of a family uses, or the
/// default where there is none.
pub fn session_effective_flows_for_family(
    sessions: &Vec<Session>,
    targets: &Vec<IpAddr>,
    ipv6: bool,
    default_flows: u8,
) -> (r: u8)
    ensures
        r == family_flows(sessions@, targets@, ipv6, default_flows),
{
    let mut i: usize = 0;
    assert(targets@.skip(0) =~= targets@);
    while i < targets.len()
        invariant
            i <= targets.len(),
            first_of_family(targets@.skip(i as int), ipv6) == first_of_family(targets@, ipv6),
        decreases targets.len() - i,
    {
        assert(targets@.skip(i as int).skip(1) =~= targets@.skip(i + 1));
        if targets[i].is_ipv6() == ipv6 {
            return match crate::session::find_session(sessions, targets[i]) {
                Some(session) => session.config.flows,
                None => default_flows,
            };
        }
        i = i + 1;
    }
    default_flows
}

/// The receivers that targets need: one for each family among them, IPv4
/// first, with the flows that the sessions of the family use.
pub fn plan_receivers(
    config: &Config,
    sessions: &Vec<Session>,
    targets: &Vec<IpAddr>,
    interface: &Option<InterfaceInfo>,
) -> (r: Vec<ReceiverConfig>)
    ensures
        ({
            let v4 = has_family(targets@, false);
            let v6 = has_family(targets@, true);
            let flows_v4 = family_flows(sessions@, targets@, false, config.flows);
            let flows_v6 = family_flows(sessions@, targets@, true, config.flows);
            &&& r@.len() == (if v4 {
                1int
            } else {
                0
            }) + (if v6 {
                1int
            } else {
                0
            })
            &&& v4 ==> configured(r@[0], *config, false, flows_v4, *interface)
            &&& v6 ==> configured(r@[r@.len() - 1], *config, true, flows_v6, *interface)
        }),
{
    let present: Families = families(targets);
    let mut receivers: Vec<ReceiverConfig> = Vec::new();
    if present.ipv4 {
        let flows: u8 = session_effective_flows_for_family(sessions, targets, false, config.flows);
        receivers.push(receiver_config(config, false, flows, interface));
    }
    if present.ipv6 {
        let flows: u8 = session_effective_flows_for_family(sessions, targets, true, config.flows);
        receivers.push(receiver_config(config, true, flows, interface));
    }
    receivers
}

/// Whether the family of some target uses one flow only.
pub open spec fn some_single(targets: Seq<IpAddr>, v4: u8, v6: u8) -> bool {
    exists|i: int|
        0 <= i < targets.len() && (if #[trigger] targets[i] is V6 {
            v6
        } else {
            v4
        }) == 1
}

/// Whether the family of some target uses one flow only.
fn any_single(targets: &Vec<IpAddr>, v4: u8, v6: u8) -> (r: bool)
    ensures
        r == some_single(targets@, v4, v6),
{
    let mut i: usize = 0;
    while i < targets.len()
        invariant
            i <= targets.len(),
            forall|j: int|
                0 <= j < i ==> (if #[trigger] targets@[j] is V6 {
                    v6
                } else {
                    v4
                }) != 1,
        decreases targets.len() - i,
    {
        let n: u8 = if targets[i].is_ipv6() {
            v6
        } else {
            v4
        };
        if n == 1 {
            assert(targets@[i as int] is V6 ==> v6 == 1);
            return true;
        }
        i = i + 1;
    }
    false
}

/// Whether the user should be told that several flows were asked for but some
/// target is probed with ICMP, which has one.
pub open spec fn flows_limited(config: Config, targets: Seq<IpAddr>, v4: u8, v6: u8) -> bool {
    config.flows > 1 && match config.protocol {
        ProbeProtocol::Icmp => true,
        ProbeProtocol::Auto => some_single(targets, v4, v6),
        ProbeProtocol::Udp | ProbeProtocol::Tcp => false,
    }
}

/// Whether to warn that flows are limited; `v4` and `v6` are the flows that
/// the families use.
pub fn warn_flows_limited(config: &Config, targets: &Vec<IpAddr>, v4: u8, v6: u8) -> (r: bool)
    ensures
        r == flows_limited(*config, targets@, v4, v6),
{
    config.flows > 1 && match config.protocol {
        ProbeProtocol::Icmp => true,
        ProbeProtocol::Auto => any_single(targets, v4, v6),
        ProbeProtocol::Udp | ProbeProtocol::Tcp => false,
    }
}

/// Echo requests have no ports to tell flows by, so that a trace with them
/// has a single flow, whatever was asked for; any other has as many as were
/// asked for. Whether they work needs to be known only where that decides.
pub proof fn law_flows_need_ports(config: &Config, echo_works: bool, r: u8, needs: bool)
    requires
        call_ensures(effective_flow_count_for_family, (config, echo_works), r),
        call_ensures(needs_socket_check, (config,), needs),
    ensures
        r == config.flows || r == 1,
        config.flows > 1 ==> (r == 1 <==> !(config.protocol is Udp) && !(config.protocol is Tcp)
            && ((config.protocol is Auto) ==> echo_works)),
        config.flows <= 1 ==> r == config.flows,
        needs <==> config.flows > 1 && (config.protocol is Auto),
{
}

/// What was found for a family holds for all its targets, and says nothing of
/// the other family.
pub proof fn law_flows_by_family(
    config: &Config,
    ip: IpAddr,
    echo_works: bool,
    v4: &mut Option<u8>,
    v6: &mut Option<u8>,
    r: u8,
    found: u8,
)
    requires
        call_ensures(effective_flow_count_for_ip_cached, (config, ip, echo_works, v4, v6), r),
        call_ensures(effective_flow_count_for_family, (config, echo_works), found),
    ensures
        (ip is V4) ==> *final(v6) == *old(v6) && *final(v4) == Some(r) && (match *old(v4) {
            Some(known) => r == known,
            None => r == found,
        }),
        (ip is V6) ==> *final(v4) == *old(v4) && *final(v6) == Some(r) && (match *old(v6) {
            Some(known) => r == known,
            None => r == found,
        }),
{
}

/// The configuration for a target differs from the common one in the flows
/// only, which are those of its family.
pub proof fn law_target_config_by_family(
    base: &Config,
    target: IpAddr,
    echo_works: bool,
    v4: &mut Option<u8>,
    v6: &mut Option<u8>,
    r: Config,
    found: u8,
)
    requires
        call_ensures(
            config_for_target_effective_flows,
            (base, target, echo_works, v4, v6),
            r,
        ),
        call_ensures(effective_flow_count_for_family, (base, echo_works), found),
    ensures
        r.max_ttl == base.max_ttl && r.timeout == base.timeout && r.port == base.port
            && r.protocol == base.protocol && r.src_port_base == base.src_port_base,
        (target is V4) ==> *final(v6) == *old(v6) && (match *old(v4) {
            Some(known) => r.flows == known,
            None => r.flows == found,
        }),
        (target is V6) ==> *final(v4) == *old(v4) && (match *old(v6) {
            Some(known) => r.flows == known,
            None => r.flows == found,
        }),
{
}

/// There is one receiver for each family that is traced, that of IPv4 first.
pub proof fn law_receivers_by_family(
    config: &Config,
    sessions: &Vec<Session>,
    targets: &Vec<IpAddr>,
    interface: &Option<InterfaceInfo>,
    r: Vec<ReceiverConfig>,
)
    requires
        call_ensures(plan_receivers, (config, sessions, targets, interface), r),
    ensures
        r@.len() <= 2,
        (exists|i: int| 0 <= i < targets@.len() && (#[trigger] targets@[i] is V4)) ==> r@.len() > 0
            && !r@[0].ipv6 && r@[0].timeout == config.timeout,
        (exists|i: int| 0 <= i < targets@.len() && (#[trigger] targets@[i] is V6)) ==> r@.len() > 0
            && r@[r@.len() - 1].ipv6 && r@[r@.len() - 1].timeout == config.timeout,
        (forall|i: int| 0 <= i < targets@.len() ==> (#[trigger] targets@[i] is V4)) ==> r@.len()
            <= 1,
        (forall|i: int| 0 <= i < targets@.len() ==> (#[trigger] targets@[i] is V6)) ==> r@.len()
            <= 1,
        targets@.len() == 0 ==> r@.len() == 0,
{
}

/// The flows of a family are those of the session of its first target.
pub proof fn law_flows_of_first_target(
    sessions: &Vec<Session>,
    targets: &Vec<IpAddr>,
    ipv6: bool,
    default_flows: u8,
    r: u8,
    k: int,
)
    requires
        call_ensures(
            session_effective_flows_for_family,
            (sessions, targets, ipv6, default_flows),
            r,
        ),
        0 <= k < targets@.len(),
        (targets@[k] is V6) == ipv6,
        forall|i: int| 0 <= i < k ==> (#[trigger] targets@[i] is V6) != ipv6,
    ensures
        match session_of(sessions@, targets@[k]) {
            Some(session) => r == session.config.flows,
            None => r == default_flows,
        },
{
    lemma_first_of_family(targets@, ipv6, k);
}

/// The first target of a family.
proof fn lemma_first_of_family(targets: Seq<IpAddr>, ipv6: bool, k: int)
    requires
        0 <= k < targets.len(),
        (targets[k] is V6) == ipv6,
        forall|i: int| 0 <= i < k ==> (#[trigger] targets[i] is V6) != ipv6,
    ensures
        first_of_family(targets, ipv6) == Some(targets[k]),
    decreases k,
{
    if k > 0 {
        let rest = targets.skip(1);
        assert forall|i: int| 0 <= i < k - 1 implies (#[trigger] rest[i] is V6) != ipv6 by {
            assert(rest[i] == targets[i + 1]);
        }
        lemma_first_of_family(rest, ipv6, k - 1);
    }
}

/// Who asked for several flows is told so where some target has but one.
pub proof fn law_limited_flows_told(
    config: &Config,
    targets: &Vec<IpAddr>,
    v4: u8,
    v6: u8,
    r: bool,
)
    requires
        call_ensures(warn_flows_limited, (config, targets, v4, v6), r),
    ensures
        r ==> config.flows > 1 && !(config.protocol is Udp) && !(config.protocol is Tcp),
        config.flows > 1 && (config.protocol is Auto) ==> (r <==> exists|i: int|
            0 <= i < targets@.len() && ((#[trigger] targets@[i] is V4) && v4 == 1 || (
            targets@[i] is V6) && v6 == 1)),
        config.flows > 1 && !(config.protocol is Auto) && !(config.protocol is Udp) && !(
        config.protocol is Tcp) ==> r,
{
}

} // verus!
