//! Targets that are added while a trace runs.

use crate::addr::IpAddr;
use crate::config::Config;
use crate::flows::{
    config_for_target_effective_flows, family_flows, flows_of, known_or, needs_socket_check,
    of_family, session_effective_flows_for_family,
};
use crate::probe::interface::InterfaceInfo;
use crate::resolve::{
    add_error, decide_add, families, has_family, has_ip, AddDecision, Families,
};
use crate::session::{Address, Session};
use crate::text::opt_text;
use crate::trace::receiver::{configured, receiver_config, ReceiverConfig};
use vstd::prelude::*;

verus! {

/// What is known of the trace that targets are added to.
#[derive(Clone, Debug)]
pub struct TargetManager {
    /// The addresses that are traced.
    pub traced: Vec<IpAddr>,
    /// The families that have a receiver.
    pub receivers: Families,
    /// The flows that each family uses, once known.
    pub flows_v4: Option<u8>,
    pub flows_v6: Option<u8>,
}

/// What becomes of a request for a target.
#[derive(Clone, Debug)]
pub enum AddPlan {
    /// It is traced already.
    Existing,
    /// It is refused.
    Refuse(String),
    /// It is traced from now on, with this configuration. A receiver comes
    /// first where its family has none.
    Start { config: Config, receiver: Option<ReceiverConfig> },
}

impl TargetManager {
    /// Whether a family has a receiver.
    pub open spec fn received(self, ipv6: bool) -> bool {
        if ipv6 {
            self.receivers.ipv6
        } else {
            self.receivers.ipv4
        }
    }

    /// The flows of a family, once known.
    pub open spec fn flows(self, ipv6: bool) -> Option<u8> {
        if ipv6 {
            self.flows_v6
        } else {
            self.flows_v4
        }
    }

    /// Every address that is traced has a receiver for its family, and the
    /// flows of a family with a receiver are known.
    pub open spec fn wf(self) -> bool {
        &&& forall|i: int| 0 <= i < self.traced@.len() ==> self.received(#[trigger] self.traced@[i] is V6)
        &&& forall|ipv6: bool| #[trigger] self.received(ipv6) ==> self.flows(ipv6) is Some
    }

    /// What is known of a trace when it starts: each family among its targets
    /// has a receiver, with the flows that its sessions use.
    pub fn new(targets: &Vec<IpAddr>, sessions: &Vec<Session>, default_flows: u8) -> (r: Self)
        ensures
            r.wf(),
            r.traced@ == targets@,
            forall|ipv6: bool| #[trigger] r.received(ipv6) == has_family(targets@, ipv6),
            forall|ipv6: bool| #[trigger]
                r.flows(ipv6) == (if has_family(targets@, ipv6) {
                    Some(family_flows(sessions@, targets@, ipv6, default_flows))
                } else {
                    None
                }),
    {
        let receivers: Families = families(targets);
        let flows_v4: Option<u8> = if receivers.ipv4 {
            Some(session_effective_flows_for_family(sessions, targets, false, default_flows))
        } else {
            None
        };
        let flows_v6: Option<u8> = if receivers.ipv6 {
            Some(session_effective_flows_for_family(sessions, targets, true, default_flows))
        } else {
            None
        };
        let mut traced: Vec<IpAddr> = Vec::new();
        let mut i: usize = 0;
        while i < targets.len()
            invariant
                i <= targets.len(),
                traced@ == targets@.take(i as int),
            decreases targets.len() - i,
        {
            traced.push(targets[i]);
            assert(traced@ =~= targets@.take(i + 1));
            i = i + 1;
        }
        assert(traced@ =~= targets@);
        let r = TargetManager { traced, receivers, flows_v4, flows_v6 };
        assert forall|i: int| 0 <= i < r.traced@.len() implies r.received(
            #[trigger] r.traced@[i] is V6,
        ) by {
            assert(of_family(targets@[i], targets@[i] is V6));
            assert(has_family(targets@, targets@[i] is V6));
        }
        r
    }

    /// Whether the flows of an address depend on what sockets can be made, and
    /// that is not known yet.
    pub fn needs_check(&self, ip: IpAddr, config: &Config) -> (r: bool)
        ensures
            r == (self.flows(ip is V6) is None && config.flows > 1 && config.protocol
                == crate::config::ProbeProtocol::Auto),
    {
        let unknown: bool = if ip.is_ipv6() {
            self.flows_v6.is_none()
        } else {
            self.flows_v4.is_none()
        };
        unknown && needs_socket_check(config)
    }

    /// Decides what becomes of a request to trace one more address;
    /// `echo_works` says whether an ICMP socket of its family can be made.
    pub fn plan_add(
        &mut self,
        ip: IpAddr,
        echo_works: bool,
        config: &Config,
        source: &Option<Address>,
        interface: &Option<InterfaceInfo>,
    ) -> (r: AddPlan)
        requires
            old(self).wf(),
        ensures
            final(self).wf(),
            has_ip(old(self).traced@, ip) ==> r is Existing && *final(self) == *old(self),
            !has_ip(old(self).traced@, ip) ==> match add_error(ip, *source, *interface) {
                Some(m) => r matches AddPlan::Refuse(text) && text@ == m && *final(self) == *old(
                    self,
                ),
                None => {
                    let ipv6 = ip is V6;
                    let flows = known_or(old(self).flows(ipv6), flows_of(*config, echo_works));
                    &&& r matches AddPlan::Start { config: own, receiver }
                    &&& own.flows == flows && opt_text(own.interface) == opt_text(config.interface)
                        && own == (Config { flows, interface: own.interface, ..*config })
                    &&& receiver is Some <==> !old(self).received(ipv6)
                    &&& receiver matches Some(rc) ==> configured(
                        rc,
                        *config,
                        ipv6,
                        flows,
                        *interface,
                    )
                    &&& final(self).traced@ == old(self).traced@.push(ip)
                    &&& final(self).received(ipv6) && final(self).flows(ipv6) == Some(flows)
                    &&& final(self).received(!ipv6) == old(self).received(!ipv6)
                    &&& final(self).flows(!ipv6) == old(self).flows(!ipv6)
                },
            },
    {
        match decide_add(&self.traced, ip, source, interface, self.receivers) {
            AddDecision::Existing => AddPlan::Existing,
            AddDecision::Refuse(text) => AddPlan::Refuse(text),
            AddDecision::Start { new_receiver } => {
                let ghost before = *self;
                let ipv6: bool = ip.is_ipv6();
                let own: Config = config_for_target_effective_flows(
                    config,
                    ip,
                    echo_works,
                    &mut self.flows_v4,
                    &mut self.flows_v6,
                );
                let receiver: Option<ReceiverConfig> = if new_receiver {
                    Some(receiver_config(config, ipv6, own.flows, interface))
                } else {
                    None
                };
                if ipv6 {
                    self.receivers.ipv6 = true;
                } else {
                    self.receivers.ipv4 = true;
                }
                self.traced.push(ip);
                assert forall|i: int| 0 <= i < self.traced@.len() implies self.received(
                    #[trigger] self.traced@[i] is V6,
                ) by {
                    if i < before.traced@.len() {
                        assert(before.received(before.traced@[i] is V6));
                    }
                }
                assert forall|v6: bool| #[trigger] self.received(v6) implies self.flows(
                    v6,
                ) is Some by {
                    if v6 != ipv6 {
                        assert(before.received(v6));
                    }
                }
                AddPlan::Start { config: own, receiver }
            },
        }
    }
}

/// A target that is being traced already is not added again. A new one gets
/// the flows of its family, and a receiver if its family has none yet; the
/// other family is left alone.
pub proof fn law_added_target_joins_its_family(
    manager: &mut TargetManager,
    ip: IpAddr,
    echo_works: bool,
    config: &Config,
    r: AddPlan,
)
    requires
        call_ensures(
            TargetManager::plan_add,
            (manager, ip, echo_works, config, &None, &None),
            r,
        ),
        old(manager).wf(),
    ensures
        old(manager).traced@.contains(ip) ==> (r is Existing) && *final(manager) == *old(manager),
        !old(manager).traced@.contains(ip) ==> {
            &&& final(manager).traced@ == old(manager).traced@.push(ip)
            &&& r matches AddPlan::Start { config: own, receiver } && own.max_ttl == config.max_ttl
                && own.timeout == config.timeout && own.port == config.port && own.protocol
                == config.protocol && (receiver is Some <==> if ip is V6 {
                !old(manager).receivers.ipv6
            } else {
                !old(manager).receivers.ipv4
            }) && (receiver matches Some(rc) ==> rc.ipv6 == (ip is V6) && rc.num_flows == own.flows
                && rc.timeout == config.timeout) && (if ip is V6 {
                &&& final(manager).receivers.ipv6
                &&& final(manager).receivers.ipv4 == old(manager).receivers.ipv4
                &&& final(manager).flows_v4 == old(manager).flows_v4
                &&& final(manager).flows_v6 == Some(own.flows)
                &&& old(manager).flows_v6 matches Some(known) ==> own.flows == known
            } else {
                &&& final(manager).receivers.ipv4
                &&& final(manager).receivers.ipv6 == old(manager).receivers.ipv6
                &&& final(manager).flows_v6 == old(manager).flows_v6
                &&& final(manager).flows_v4 == Some(own.flows)
                &&& old(manager).flows_v4 matches Some(known) ==> own.flows == known
            })
        },
{
    assert(has_ip(old(manager).traced@, ip) <==> old(manager).traced@.contains(ip)) by {
        let traced = old(manager).traced@;
        if has_ip(traced, ip) {
            let i = choose|i: int| 0 <= i < traced.len() && #[trigger] traced[i] == ip;
            assert(traced[i] == ip);
        }
        if traced.contains(ip) {
            let i = choose|i: int| 0 <= i < traced.len() && traced[i] == ip;
            assert(traced[i] == ip);
        }
    }
    assert(old(manager).received(true) == old(manager).receivers.ipv6);
    assert(old(manager).received(false) == old(manager).receivers.ipv4);
    assert(final(manager).received(true) == final(manager).receivers.ipv6);
    assert(final(manager).received(false) == final(manager).receivers.ipv4);
    assert(old(manager).flows(true) == old(manager).flows_v6);
    assert(old(manager).flows(false) == old(manager).flows_v4);
    assert(final(manager).flows(true) == final(manager).flows_v6);
    assert(final(manager).flows(false) == final(manager).flows_v4);
}

/// Whether several flows work is looked into once per family, and only where
/// it is not settled by what was asked for.
pub proof fn law_flows_checked_once(
    manager: &TargetManager,
    a: IpAddr,
    b: IpAddr,
    config: &Config,
    r: bool,
    s: bool,
)
    requires
        call_ensures(TargetManager::needs_check, (manager, a, config), r),
        call_ensures(TargetManager::needs_check, (manager, b, config), s),
    ensures
        (a is V6) == (b is V6) ==> r == s,
        config.flows <= 1 ==> !r,
        !(config.protocol is Auto) ==> !r,
{
}

} // verus!
