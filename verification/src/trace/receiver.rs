//! What the receiver makes of packets, errors and time.

use crate::addr::IpAddr;
use crate::config::Config;
use crate::probe::correlate::{
    parse_icmp_response, received_response, ParsedResponse, ResponseView,
};
use crate::probe::interface::InterfaceInfo;
use crate::probe::quoted::labels_view;
use crate::state::{IcmpResponseType, MplsLabel, PmtudPhase, PmtudState, ProbeId, ProbeOutcome};
use crate::trace::pending::{
    flow_key, flows_in, overdue, FlowsFound, PendingEntry, PendingKey, PendingMap, PendingProbe,
};
use vstd::prelude::*;

verus! {

/// Maximum consecutive errors before the receiver stops.
pub const MAX_CONSECUTIVE_ERRORS: u32 = 50;

/// Maximum packets to drain before timeouts are looked after.
pub const MAX_DRAIN_BATCH: usize = 100;

/// Configuration of the receiver.
#[derive(Debug, Clone)]
pub struct ReceiverConfig {
    /// Probe timeout in nanoseconds.
    pub timeout: u64,
    /// Whether targets are IPv6.
    pub ipv6: bool,
    /// Base source port for flow identification.
    pub src_port_base: u16,
    /// Number of flows.
    pub num_flows: u8,
    /// Network interface to bind the socket to.
    pub interface: Option<InterfaceInfo>,
    /// Whether the socket is not bound to the interface.
    pub recv_any: bool,
}

/// Whether two optional interfaces are the same.
pub open spec fn same_interface(a: Option<InterfaceInfo>, b: Option<InterfaceInfo>) -> bool {
    match (a, b) {
        (Some(x), Some(y)) => x.name@ == y.name@ && x == (InterfaceInfo { name: x.name, ..y }),
        (None, None) => true,
        _ => false,
    }
}

/// Whether these are the settings of the receiver of a family, which uses so
/// many flows.
pub open spec fn configured(
    r: ReceiverConfig,
    config: Config,
    ipv6: bool,
    num_flows: u8,
    interface: Option<InterfaceInfo>,
) -> bool {
    &&& r.timeout == config.timeout
    &&& r.ipv6 == ipv6
    &&& r.src_port_base == config.src_port_base
    &&& r.num_flows == num_flows
    &&& same_interface(r.interface, interface)
    &&& r.recv_any == config.recv_any
}

/// The settings of the receiver of a family, which uses so many flows.
pub fn receiver_config(
    config: &Config,
    ipv6: bool,
    num_flows: u8,
    interface: &Option<InterfaceInfo>,
) -> (r: ReceiverConfig)
    ensures
        configured(r, *config, ipv6, num_flows, *interface),
{
    ReceiverConfig {
        timeout: config.timeout,
        ipv6,
        src_port_base: config.src_port_base,
        num_flows,
        interface: match interface {
            Some(info) => Some(info.copy()),
            None => None,
        },
        recv_any: config.recv_any,
    }
}

/// An answer to a probe, to be entered into its session.
#[derive(Debug)]
pub struct BatchedResponse {
    pub probe_id: ProbeId,
    pub responder: IpAddr,
    /// Round-trip time in nanoseconds.
    pub rtt: u64,
    pub mpls_labels: Option<Vec<MplsLabel>>,
    pub response_type: IcmpResponseType,
    pub target: IpAddr,
    pub flow_id: u8,
    pub original_src_port: Option<u16>,
    pub returned_src_port: Option<u16>,
    pub packet_size: Option<u16>,
    pub reported_mtu: Option<u16>,
    pub response_ttl: Option<u8>,
    pub quoted_ttl: Option<u8>,
}

/// The receiver's own state.
pub struct Receiver {
    pub config: ReceiverConfig,
    pub consecutive_errors: u32,
}

/// The flow that a source port belongs to. Without a port (ICMP) it is flow
/// 0, provided that there is only one.
pub open spec fn flow_hint(base: u16, num_flows: u8, src_port: Option<u16>) -> Option<u8> {
    match src_port {
        Some(port) => if base <= port < base + num_flows {
            Some((port - base) as u8)
        } else {
            None
        },
        None => if num_flows == 1 {
            Some(0)
        } else {
            None
        },
    }
}

/// Which outstanding probe an answer takes. With a known flow it is the
/// normal probe of that flow, else its path-MTU probe. With an unknown flow
/// it is the only normal probe, or the only path-MTU probe if there is no
/// normal one; where there are several, none.
pub open spec fn answered_key(
    map: Map<PendingKey, PendingProbe>,
    probe_id: ProbeId,
    target: IpAddr,
    hint: Option<u8>,
) -> Option<PendingKey> {
    match hint {
        Some(flow) => if map.contains_key(flow_key(probe_id, flow, target, false)) {
            Some(flow_key(probe_id, flow, target, false))
        } else if map.contains_key(flow_key(probe_id, flow, target, true)) {
            Some(flow_key(probe_id, flow, target, true))
        } else {
            None
        },
        None => match flows_in(map, probe_id, target, false) {
            FlowsFound::One(flow) => Some(flow_key(probe_id, flow, target, false)),
            FlowsFound::Many => None,
            FlowsFound::Absent => match flows_in(map, probe_id, target, true) {
                FlowsFound::One(flow) => Some(flow_key(probe_id, flow, target, true)),
                FlowsFound::Many => None,
                FlowsFound::Absent => None,
            },
        },
    }
}

/// Which outstanding probe an answer takes, of the targets in this order.
pub open spec fn answered_among(
    map: Map<PendingKey, PendingProbe>,
    probe_id: ProbeId,
    targets: Seq<IpAddr>,
    hint: Option<u8>,
) -> Option<PendingKey>
    decreases targets.len(),
{
    if targets.len() == 0 {
        None
    } else {
        match answered_key(map, probe_id, targets[0], hint) {
            Some(key) => Some(key),
            None => answered_among(map, probe_id, targets.skip(1), hint),
        }
    }
}

/// The targets that an answer may concern: the one it names, then all others
/// that are being traced.
pub open spec fn concerned(original_dest: Option<IpAddr>, targets: Seq<IpAddr>) -> Seq<IpAddr> {
    match original_dest {
        Some(dest) => seq![dest] + targets,
        None => targets,
    }
}

/// A packet as the socket delivers it.
#[derive(Debug)]
pub struct RecvPacket {
    pub data: Vec<u8>,
    pub source: IpAddr,
    /// Whether the socket leaves the IP header out.
    pub is_dgram: bool,
    /// The TTL it arrived with.
    pub response_ttl: Option<u8>,
}

/// What a received answer comes to.
#[derive(Debug)]
pub enum Received {
    /// It answers an outstanding probe.
    Matched(BatchedResponse),
    /// It comes too late; the target's session, if there is one, is told.
    Late { target: IpAddr, outcome: LateReply },
    /// Nothing can be said of it.
    Unmatched,
}

/// A late answer.
#[derive(Clone, Copy, Debug, PartialEq, Eq, Structural)]
pub struct LateReply {
    pub probe_id: ProbeId,
    pub flow_id: u8,
    pub addr: IpAddr,
    /// Round-trip time in microseconds: zero, as it is no longer known when
    /// the probe was sent.
    pub rtt_us: u64,
}

/// What a parsed answer comes to: it takes the outstanding probe that it
/// concerns; without one it is late, if it tells its target.
pub open spec fn comes_to(
    config: ReceiverConfig,
    parsed: ResponseView,
    response_ttl: Option<u8>,
    now: u64,
    before: Map<PendingKey, PendingProbe>,
    after: Map<PendingKey, PendingProbe>,
    targets: Seq<IpAddr>,
    r: Received,
) -> bool {
    let hint = flow_hint(config.src_port_base, config.num_flows, parsed.src_port);
    match answered_among(
        before,
        parsed.probe_id,
        concerned(parsed.original_dest, targets),
        hint,
    ) {
        Some(key) => after == before.remove(key) && (r matches Received::Matched(resp) && answers(
            resp,
            parsed,
            response_ttl,
            now,
            before[key],
        )),
        None => after == before && match parsed.original_dest {
            Some(target) => r == (Received::Late {
                target,
                outcome: LateReply {
                    probe_id: parsed.probe_id,
                    flow_id: match hint {
                        Some(flow) => flow,
                        None => 0,
                    },
                    addr: parsed.responder,
                    rtt_us: 0,
                },
            }),
            None => r is Unmatched,
        },
    }
}

/// What reading the socket came to.
#[derive(Clone, Copy, Debug, PartialEq, Eq, Structural)]
pub enum RecvEvent {
    /// A packet came.
    Packet,
    /// There is nothing to read now.
    Drained,
    /// Reading failed.
    Failed,
}

/// What to do after reading the socket.
#[derive(Clone, Copy, Debug, PartialEq, Eq, Structural)]
pub enum DrainStep {
    /// Read again.
    Again,
    /// Enter what was received and look after timeouts.
    Apply,
    /// Stop the receiver with an error.
    Stop,
}

/// What a receiver is about to do.
#[derive(Clone, Copy, Debug, PartialEq, Eq, Structural)]
pub enum Stage {
    /// To read the socket.
    Drain,
    /// To enter what was received into the sessions.
    Apply,
    /// To look after timeouts.
    Expire,
    /// To count what is still outstanding as timed out.
    Flush,
    /// Nothing more.
    End,
    /// Nothing more, as reading failed too often.
    Fail,
}

/// What a receiver does next. `step` is how to go on after reading the socket,
/// `cancelled` whether the trace has been cancelled by now.
///
/// What was received is entered first. Only then is cancellation looked at,
/// and only then are probes timed out, so that answers that are queued are
/// not lost.
pub open spec fn stage_after(stage: Stage, step: DrainStep, cancelled: bool) -> Stage {
    match stage {
        Stage::Drain => match step {
            DrainStep::Again => Stage::Drain,
            DrainStep::Apply => Stage::Apply,
            DrainStep::Stop => Stage::Fail,
        },
        Stage::Apply => if cancelled {
            Stage::Flush
        } else {
            Stage::Expire
        },
        Stage::Expire => Stage::Drain,
        Stage::Flush => Stage::End,
        Stage::End => Stage::End,
        Stage::Fail => Stage::Fail,
    }
}

/// Decides what a receiver does next.
pub fn next_stage(stage: Stage, step: DrainStep, cancelled: bool) -> (r: Stage)
    ensures
        r == stage_after(stage, step, cancelled),
{
    match stage {
        Stage::Drain => match step {
            DrainStep::Again => Stage::Drain,
            DrainStep::Apply => Stage::Apply,
            DrainStep::Stop => Stage::Fail,
        },
        Stage::Apply => if cancelled {
            Stage::Flush
        } else {
            Stage::Expire
        },
        Stage::Expire => Stage::Drain,
        Stage::Flush => Stage::End,
        Stage::End => Stage::End,
        Stage::Fail => Stage::Fail,
    }
}

/// A receiver ends only when it is cancelled, and not before what it received
/// has been entered and what is outstanding has been counted. It fails only
/// when reading the socket says so. Probes are timed out only after what was
/// received has been entered.
pub proof fn law_nothing_queued_is_lost(stage: Stage, step: DrainStep, cancelled: bool)
    ensures
        ({
            let next = stage_after(stage, step, cancelled);
            &&& next == Stage::End ==> stage == Stage::Flush || stage == Stage::End
            &&& next == Stage::Flush ==> stage == Stage::Apply && cancelled
            &&& next == Stage::Expire ==> stage == Stage::Apply && !cancelled
            &&& next == Stage::Fail ==> stage == Stage::Fail || stage == Stage::Drain && step
                == DrainStep::Stop
            &&& stage == Stage::Apply && cancelled ==> stage_after(next, step, cancelled)
                == Stage::End
        }),
{
}

/// What to record of a hop for a normal answer.
#[derive(Clone, Copy, Debug, PartialEq, Eq, Structural)]
pub struct HopUpdate {
    /// Whether a change of the responder counts as a route flap: only with a
    /// single flow, as several flows take several paths.
    pub detect_flaps: bool,
    pub flow_id: u8,
    /// Source port sent, and source port quoted (NAT detection).
    pub sent_port: Option<u16>,
    pub returned_port: Option<u16>,
    /// TTL of the answer for asymmetry detection, with a single flow.
    pub response_ttl: Option<u8>,
    /// Whether that TTL is an IPv6 hop limit.
    pub ipv6: bool,
    /// Quoted TTL for manipulation detection, of expiry in transit.
    pub manipulated_ttl: Option<u8>,
}

/// What an answer or a timeout means for path-MTU discovery.
#[derive(Clone, Copy, Debug, PartialEq, Eq, Structural)]
pub enum PmtudUpdate {
    /// Nothing.
    Keep,
    /// The size passed.
    Success,
    /// The size did not pass.
    Failure,
    /// A router reported its MTU.
    FragNeeded(u16),
}

/// What an answer changes in its session.
#[derive(Clone, Copy, Debug, PartialEq, Eq, Structural)]
pub struct ResponsePlan {
    /// What to record of the hop; nothing for path-MTU probes.
    pub hop: Option<HopUpdate>,
    /// How the probe ended, for replay; nothing for path-MTU probes.
    pub outcome: Option<ProbeOutcome>,
    /// Whether the target itself answered.
    pub reached: bool,
    /// The target's distance afterwards.
    pub dest_ttl: Option<u8>,
    pub pmtud: PmtudUpdate,
}

/// What a timed-out probe changes in its session.
#[derive(Clone, Copy, Debug, PartialEq, Eq, Structural)]
pub struct TimeoutPlan {
    /// Whether hop and flow record a timeout.
    pub hop_timeout: bool,
    pub flow_id: u8,
    /// How the probe ended, for replay.
    pub outcome: Option<ProbeOutcome>,
    pub pmtud: PmtudUpdate,
}

/// Whether this answer reports that a packet was too large.
pub open spec fn too_large(response_type: IcmpResponseType) -> bool {
    response_type == IcmpResponseType::DestUnreachable(4) || response_type
        == IcmpResponseType::PacketTooBig
}

/// The distance of the target after it answered at `ttl`.
pub open spec fn nearer(dest_ttl: Option<u8>, ttl: u8) -> Option<u8> {
    match dest_ttl {
        Some(d) => if ttl < d {
            Some(ttl)
        } else {
            Some(d)
        },
        None => Some(ttl),
    }
}

/// What an answer means for path-MTU discovery: something only if it answers
/// a probe of the size being tried.
pub open spec fn pmtud_answer(
    packet_size: Option<u16>,
    response_type: IcmpResponseType,
    reported_mtu: Option<u16>,
    pmtud: Option<PmtudState>,
) -> PmtudUpdate {
    match (packet_size, pmtud) {
        (Some(size), Some(state)) => if !state.awaits(size) {
            PmtudUpdate::Keep
        } else if !too_large(response_type) {
            PmtudUpdate::Success
        } else {
            match reported_mtu {
                Some(mtu) => PmtudUpdate::FragNeeded(mtu),
                None => PmtudUpdate::Failure,
            }
        },
        _ => PmtudUpdate::Keep,
    }
}

/// What an answer changes in its session. `ipv6` is the family of the
/// receiver.
pub open spec fn response_plan(
    resp: BatchedResponse,
    num_flows: u8,
    ipv6: bool,
    dest_ttl: Option<u8>,
    pmtud: Option<PmtudState>,
) -> ResponsePlan {
    let normal = resp.packet_size is None;
    let reached = resp.response_type == IcmpResponseType::EchoReply && resp.responder
        == resp.target;
    ResponsePlan {
        hop: if normal {
            Some(
                HopUpdate {
                    detect_flaps: num_flows == 1,
                    flow_id: resp.flow_id,
                    sent_port: resp.original_src_port,
                    returned_port: resp.returned_src_port,
                    response_ttl: if num_flows == 1 {
                        resp.response_ttl
                    } else {
                        None
                    },
                    ipv6,
                    manipulated_ttl: if resp.response_type == IcmpResponseType::TimeExceeded(0) {
                        resp.quoted_ttl
                    } else {
                        None
                    },
                },
            )
        } else {
            None
        },
        outcome: if normal {
            Some(ProbeOutcome::Reply { addr: resp.responder, rtt_us: resp.rtt / 1000 })
        } else {
            None
        },
        reached,
        dest_ttl: if reached {
            nearer(dest_ttl, resp.probe_id.ttl)
        } else {
            dest_ttl
        },
        pmtud: pmtud_answer(resp.packet_size, resp.response_type, resp.reported_mtu, pmtud),
    }
}

/// What a timed-out probe changes in its session: path-MTU probes count only
/// for path-MTU discovery.
pub open spec fn timeout_plan(probe: PendingProbe, pmtud: Option<PmtudState>) -> TimeoutPlan {
    TimeoutPlan {
        hop_timeout: probe.packet_size is None,
        flow_id: probe.flow_id,
        outcome: if probe.packet_size is None {
            Some(ProbeOutcome::Timeout)
        } else {
            None
        },
        pmtud: match (probe.packet_size, pmtud) {
            (Some(size), Some(state)) => if state.awaits(size) {
                PmtudUpdate::Failure
            } else {
                PmtudUpdate::Keep
            },
            _ => PmtudUpdate::Keep,
        },
    }
}

/// Whether a probe of this size is the one that the search waits for.
fn awaits(state: &PmtudState, size: u16) -> (r: bool)
    ensures
        r == state.awaits(size),
{
    match state.phase {
        PmtudPhase::Searching => size == state.current_size,
        _ => false,
    }
}

/// The distance of the target after it answered at `ttl`.
pub fn nearer_ttl(dest_ttl: Option<u8>, ttl: u8) -> (r: Option<u8>)
    ensures
        r == nearer(dest_ttl, ttl),
{
    match dest_ttl {
        Some(d) => if ttl < d {
            Some(ttl)
        } else {
            Some(d)
        },
        None => Some(ttl),
    }
}

impl Receiver {
    /// A receiver that has met no error.
    pub fn new(config: ReceiverConfig) -> (r: Receiver)
        ensures
            r.config == config,
            r.consecutive_errors == 0,
    {
        Receiver { config, consecutive_errors: 0 }
    }

    /// The interface to bind the socket to.
    pub fn bound_interface(&self) -> (r: Option<&InterfaceInfo>)
        ensures
            r == (if self.config.recv_any {
                None
            } else {
                match self.config.interface {
                    Some(info) => Some(&info),
                    None => None,
                }
            }),
    {
        if self.config.recv_any {
            None
        } else {
            self.config.interface.as_ref()
        }
    }

    /// Derives the flow from the quoted source port. A port out of range (as
    /// after NAT) leaves the flow unknown.
    pub fn derive_flow_hint(&self, src_port: Option<u16>) -> (r: Option<u8>)
        ensures
            r == flow_hint(self.config.src_port_base, self.config.num_flows, src_port),
    {
        match src_port {
            Some(port) => if port >= self.config.src_port_base && port - self.config.src_port_base
                < self.config.num_flows as u16 {
                Some((port - self.config.src_port_base) as u8)
            } else {
                None
            },
            None => if self.config.num_flows == 1 {
                Some(0)
            } else {
                None
            },
        }
    }

    /// Takes the outstanding probe that an answer from a target concerns.
    pub fn remove_pending_by_flow_hint(
        pending: &mut PendingMap,
        probe_id: ProbeId,
        target: IpAddr,
        hint: Option<u8>,
    ) -> (r: Option<PendingProbe>)
        requires
            old(pending).wf(),
        ensures
            final(pending).wf(),
            match answered_key(old(pending)@, probe_id, target, hint) {
                Some(key) => old(pending)@.contains_key(key) && r == Some(old(pending)@[key])
                    && final(pending)@ == old(pending)@.remove(key),
                None => r is None && final(pending)@ == old(pending)@,
            },
    {
        if let Some(flow_id) = hint {
            let normal = PendingKey { probe_id, flow_id, target, is_pmtud: false };
            if let Some(probe) = pending.remove(&normal) {
                return Some(probe);
            }
            assert(pending@ =~= old(pending)@);
            let sized = PendingKey { probe_id, flow_id, target, is_pmtud: true };
            if let Some(probe) = pending.remove(&sized) {
                return Some(probe);
            }
            assert(pending@ =~= old(pending)@);
            return None;
        }
        match pending.flows_of(probe_id, target, false) {
            FlowsFound::One(flow_id) => pending.remove(
                &PendingKey { probe_id, flow_id, target, is_pmtud: false },
            ),
            FlowsFound::Many => None,
            FlowsFound::Absent => match pending.flows_of(probe_id, target, true) {
                FlowsFound::One(flow_id) => pending.remove(
                    &PendingKey { probe_id, flow_id, target, is_pmtud: true },
                ),
                FlowsFound::Many => None,
                FlowsFound::Absent => None,
            },
        }
    }

    /// Takes the outstanding probe that an answer concerns, trying the target
    /// it names first and then every target that is being traced.
    pub fn take_answered(
        pending: &mut PendingMap,
        probe_id: ProbeId,
        original_dest: Option<IpAddr>,
        hint: Option<u8>,
        targets: &Vec<IpAddr>,
    ) -> (r: Option<PendingProbe>)
        requires
            old(pending).wf(),
        ensures
            final(pending).wf(),
            match answered_among(
                old(pending)@,
                probe_id,
                concerned(original_dest, targets@),
                hint,
            ) {
                Some(key) => old(pending)@.contains_key(key) && r == Some(old(pending)@[key])
                    && final(pending)@ == old(pending)@.remove(key),
                None => r is None && final(pending)@ == old(pending)@,
            },
    {
        let ghost map = pending@;
        if let Some(dest) = original_dest {
            proof {
                assert(concerned(original_dest, targets@).skip(1) =~= targets@);
            }
            let found: Option<PendingProbe> = Receiver::remove_pending_by_flow_hint(
                pending,
                probe_id,
                dest,
                hint,
            );
            if found.is_some() {
                return found;
            }
        }
        let mut i: usize = 0;
        proof {
            assert(targets@.skip(0) =~= targets@);
        }
        while i < targets.len()
            invariant
                i <= targets.len(),
                pending.wf(),
                pending@ == map,
                answered_among(map, probe_id, targets@.skip(i as int), hint) == answered_among(
                    map,
                    probe_id,
                    concerned(original_dest, targets@),
                    hint,
                ),
                map == old(pending)@,
            decreases targets.len() - i,
        {
            proof {
                assert(targets@.skip(i as int).skip(1) =~= targets@.skip(i + 1));
            }
            let found: Option<PendingProbe> = Receiver::remove_pending_by_flow_hint(
                pending,
                probe_id,
                targets[i],
                hint,
            );
            if found.is_some() {
                return found;
            }
            i = i + 1;
        }
        None
    }

    /// Decides what a parsed answer comes to. `now` is the time, `targets`
    /// are those being traced.
    pub fn receive(
        &self,
        parsed: ParsedResponse,
        response_ttl: Option<u8>,
        now: u64,
        pending: &mut PendingMap,
        targets: &Vec<IpAddr>,
    ) -> (r: Received)
        requires
            old(pending).wf(),
        ensures
            final(pending).wf(),
            comes_to(
                self.config,
                parsed@,
                response_ttl,
                now,
                old(pending)@,
                final(pending)@,
                targets@,
                r,
            ),
    {
        let hint: Option<u8> = self.derive_flow_hint(parsed.src_port);
        let found: Option<PendingProbe> = Receiver::take_answered(
            pending,
            parsed.probe_id,
            parsed.original_dest,
            hint,
            targets,
        );
        match found {
            Some(probe) => Received::Matched(
                BatchedResponse {
                    probe_id: parsed.probe_id,
                    responder: parsed.responder,
                    rtt: if now >= probe.sent_at {
                        now - probe.sent_at
                    } else {
                        0
                    },
                    mpls_labels: parsed.mpls_labels,
                    response_type: parsed.response_type,
                    target: probe.target,
                    flow_id: probe.flow_id,
                    original_src_port: probe.original_src_port,
                    returned_src_port: parsed.src_port,
                    packet_size: probe.packet_size,
                    reported_mtu: parsed.mtu,
                    response_ttl,
                    quoted_ttl: parsed.quoted_ttl,
                },
            ),
            None => match parsed.original_dest {
                Some(target) => Received::Late {
                    target,
                    outcome: LateReply {
                        probe_id: parsed.probe_id,
                        flow_id: match hint {
                            Some(flow) => flow,
                            None => 0,
                        },
                        addr: parsed.responder,
                        rtt_us: 0,
                    },
                },
                None => Received::Unmatched,
            },
        }
    }

    /// Decides what the bytes of a packet come to: nothing, unless they answer
    /// a probe with our identifier.
    pub fn on_packet(
        &self,
        packet: &RecvPacket,
        our_identifier: u16,
        now: u64,
        pending: &mut PendingMap,
        targets: &Vec<IpAddr>,
    ) -> (r: Option<Received>)
        requires
            old(pending).wf(),
        ensures
            final(pending).wf(),
            match received_response(
                packet.data@,
                packet.source,
                our_identifier,
                packet.is_dgram,
            ) {
                Some(parsed) => r is Some && comes_to(
                    self.config,
                    parsed,
                    packet.response_ttl,
                    now,
                    old(pending)@,
                    final(pending)@,
                    targets@,
                    r->0,
                ),
                None => r is None && final(pending)@ == old(pending)@,
            },
    {
        match parse_icmp_response(
            packet.data.as_slice(),
            packet.source,
            our_identifier,
            packet.is_dgram,
        ) {
            Some(parsed) => Some(
                self.receive(parsed, packet.response_ttl, now, pending, targets),
            ),
            None => None,
        }
    }

    /// Decides how to go on after reading the socket. `batch_count` packets
    /// have been read in this turn. Errors count only while nothing else
    /// happens.
    pub fn drain_step(&mut self, batch_count: &mut usize, event: RecvEvent) -> (r: DrainStep)
        requires
            *old(batch_count) < MAX_DRAIN_BATCH,
            old(self).consecutive_errors < MAX_CONSECUTIVE_ERRORS,
        ensures
            final(self).config == old(self).config,
            match event {
                RecvEvent::Packet => final(self).consecutive_errors == 0 && *final(batch_count)
                    == *old(batch_count) + 1 && r == (if *final(batch_count) < MAX_DRAIN_BATCH {
                    DrainStep::Again
                } else {
                    DrainStep::Apply
                }),
                RecvEvent::Drained => final(self).consecutive_errors == 0 && *final(batch_count)
                    == *old(batch_count) && r == DrainStep::Apply,
                RecvEvent::Failed => final(self).consecutive_errors == old(self).consecutive_errors
                    + 1 && *final(batch_count) == *old(batch_count) && r == (
                if final(self).consecutive_errors >= MAX_CONSECUTIVE_ERRORS {
                    DrainStep::Stop
                } else {
                    DrainStep::Apply
                }),
            },
    {
        match event {
            RecvEvent::Packet => {
                self.consecutive_errors = 0;
                *batch_count = *batch_count + 1;
                if *batch_count < MAX_DRAIN_BATCH {
                    DrainStep::Again
                } else {
                    DrainStep::Apply
                }
            },
            RecvEvent::Drained => {
                self.consecutive_errors = 0;
                DrainStep::Apply
            },
            RecvEvent::Failed => {
                self.consecutive_errors = self.consecutive_errors + 1;
                if self.consecutive_errors >= MAX_CONSECUTIVE_ERRORS {
                    DrainStep::Stop
                } else {
                    DrainStep::Apply
                }
            },
        }
    }

    /// Decides what an answer changes in its session, whose target was known
    /// to be `dest_ttl` hops away.
    pub fn plan_response(
        &self,
        resp: &BatchedResponse,
        dest_ttl: Option<u8>,
        pmtud: Option<PmtudState>,
    ) -> (r: ResponsePlan)
        ensures
            r == response_plan(*resp, self.config.num_flows, self.config.ipv6, dest_ttl, pmtud),
    {
        let single: bool = self.config.num_flows == 1;
        let normal: bool = resp.packet_size.is_none();
        let reached: bool = match resp.response_type {
            IcmpResponseType::EchoReply => resp.responder == resp.target,
            _ => false,
        };
        let hop: Option<HopUpdate> = if normal {
            Some(
                HopUpdate {
                    detect_flaps: single,
                    flow_id: resp.flow_id,
                    sent_port: resp.original_src_port,
                    returned_port: resp.returned_src_port,
                    response_ttl: if single {
                        resp.response_ttl
                    } else {
                        None
                    },
                    ipv6: self.config.ipv6,
                    manipulated_ttl: match resp.response_type {
                        IcmpResponseType::TimeExceeded(code) => if code == 0 {
                            resp.quoted_ttl
                        } else {
                            None
                        },
                        _ => None,
                    },
                },
            )
        } else {
            None
        };
        let outcome: Option<ProbeOutcome> = if normal {
            Some(ProbeOutcome::Reply { addr: resp.responder, rtt_us: resp.rtt / 1000 })
        } else {
            None
        };
        ResponsePlan {
            hop,
            outcome,
            reached,
            dest_ttl: if reached {
                nearer_ttl(dest_ttl, resp.probe_id.ttl)
            } else {
                dest_ttl
            },
            pmtud: plan_pmtud(resp.packet_size, resp.response_type, resp.reported_mtu, pmtud),
        }
    }

    /// Takes the probes that have timed out at `now`.
    pub fn take_timed_out(&self, pending: &mut PendingMap, now: u64) -> (r: Vec<PendingEntry>)
        requires
            old(pending).wf(),
        ensures
            final(pending).wf(),
            crate::trace::pending::distinct_keys(r@),
            forall|key: PendingKey| #[trigger]
                crate::trace::pending::has_key(r@, key) <==> old(pending)@.contains_key(key)
                    && overdue(old(pending)@[key], now, self.config.timeout),
            forall|key: PendingKey| #[trigger]
                crate::trace::pending::has_key(r@, key) ==> crate::trace::pending::value_of(r@, key)
                    == old(pending)@[key],
            forall|key: PendingKey| #[trigger]
                final(pending)@.contains_key(key) <==> old(pending)@.contains_key(key) && !overdue(
                    old(pending)@[key],
                    now,
                    self.config.timeout,
                ),
            forall|key: PendingKey| #[trigger]
                final(pending)@.contains_key(key) ==> final(pending)@[key] == old(pending)@[key],
    {
        pending.take_expired(now, self.config.timeout)
    }
}

/// Whether this is the response for an answered probe.
pub open spec fn answers(
    resp: BatchedResponse,
    parsed: ResponseView,
    response_ttl: Option<u8>,
    now: u64,
    probe: PendingProbe,
) -> bool {
    &&& resp.probe_id == parsed.probe_id
    &&& resp.responder == parsed.responder
    &&& resp.rtt == elapsed(probe.sent_at, now)
    &&& labels_view(resp.mpls_labels) == parsed.mpls_labels
    &&& resp.response_type == parsed.response_type
    &&& resp.target == probe.target
    &&& resp.flow_id == probe.flow_id
    &&& resp.original_src_port == probe.original_src_port
    &&& resp.returned_src_port == parsed.src_port
    &&& resp.packet_size == probe.packet_size
    &&& resp.reported_mtu == parsed.mtu
    &&& resp.response_ttl == response_ttl
    &&& resp.quoted_ttl == parsed.quoted_ttl
}

/// Time since `start`, none if it lies ahead.
pub open spec fn elapsed(start: u64, now: u64) -> u64 {
    if now >= start {
        (now - start) as u64
    } else {
        0
    }
}

/// Decides what an answer means for path-MTU discovery.
pub fn plan_pmtud(
    packet_size: Option<u16>,
    response_type: IcmpResponseType,
    reported_mtu: Option<u16>,
    pmtud: Option<PmtudState>,
) -> (r: PmtudUpdate)
    ensures
        r == pmtud_answer(packet_size, response_type, reported_mtu, pmtud),
{
    match (packet_size, pmtud) {
        (Some(size), Some(state)) => {
            if !awaits(&state, size) {
                return PmtudUpdate::Keep;
            }
            let rejected: bool = match response_type {
                IcmpResponseType::DestUnreachable(code) => code == 4,
                IcmpResponseType::PacketTooBig => true,
                _ => false,
            };
            if !rejected {
                PmtudUpdate::Success
            } else {
                match reported_mtu {
                    Some(mtu) => PmtudUpdate::FragNeeded(mtu),
                    None => PmtudUpdate::Failure,
                }
            }
        },
        _ => PmtudUpdate::Keep,
    }
}

/// Decides what a timed-out probe changes in its session.
pub fn plan_timeout(probe: &PendingProbe, pmtud: Option<PmtudState>) -> (r: TimeoutPlan)
    ensures
        r == timeout_plan(*probe, pmtud),
{
    let normal: bool = probe.packet_size.is_none();
    let update: PmtudUpdate = match (probe.packet_size, pmtud) {
        (Some(size), Some(state)) => if awaits(&state, size) {
            PmtudUpdate::Failure
        } else {
            PmtudUpdate::Keep
        },
        _ => PmtudUpdate::Keep,
    };
    TimeoutPlan {
        hop_timeout: normal,
        flow_id: probe.flow_id,
        outcome: if normal {
            Some(ProbeOutcome::Timeout)
        } else {
            None
        },
        pmtud: update,
    }
}

/// A hop that records a timeout at shutdown.
#[derive(Clone, Copy, Debug, PartialEq, Eq, Structural)]
pub struct FlushedTimeout {
    pub target: IpAddr,
    pub ttl: u8,
    pub flow_id: u8,
}

/// The timeouts of drained probes: of all but path-MTU probes, in order.
pub open spec fn flushed(entries: Seq<PendingEntry>) -> Seq<FlushedTimeout>
    decreases entries.len(),
{
    if entries.len() == 0 {
        Seq::empty()
    } else {
        let before = flushed(entries.drop_last());
        let last = entries.last();
        if last.key.is_pmtud {
            before
        } else {
            before.push(
                FlushedTimeout {
                    target: last.key.target,
                    ttl: last.key.probe_id.ttl,
                    flow_id: last.probe.flow_id,
                },
            )
        }
    }
}

/// Takes all outstanding probes at shutdown and says which hops record a
/// timeout for them.
pub fn flush_pending_as_timeouts(pending: &mut PendingMap) -> (r: Vec<FlushedTimeout>)
    requires
        old(pending).wf(),
    ensures
        final(pending).wf(),
        final(pending)@ == Map::<PendingKey, PendingProbe>::empty(),
        exists|entries: Seq<PendingEntry>|
            crate::trace::pending::distinct_keys(entries) && crate::trace::pending::as_map(entries)
                == old(pending)@ && r@ == #[trigger] flushed(entries),
{
    let entries: Vec<PendingEntry> = pending.drain();
    let mut out: Vec<FlushedTimeout> = Vec::new();
    let mut i: usize = 0;
    while i < entries.len()
        invariant
            i <= entries.len(),
            out@ == flushed(entries@.take(i as int)),
        decreases entries.len() - i,
    {
        let entry: PendingEntry = entries[i];
        assert(entries@.take(i + 1).drop_last() =~= entries@.take(i as int));
        if !entry.key.is_pmtud {
            out.push(
                FlushedTimeout {
                    target: entry.key.target,
                    ttl: entry.key.probe_id.ttl,
                    flow_id: entry.probe.flow_id,
                },
            );
        }
        i = i + 1;
    }
    assert(entries@.take(entries@.len() as int) =~= entries@);
    out
}

/// An answered probe is taken at most once: afterwards its key is no longer
/// outstanding, and all others are as they were.
pub proof fn law_answer_taken_once(
    map: Map<PendingKey, PendingProbe>,
    probe_id: ProbeId,
    target: IpAddr,
    hint: Option<u8>,
)
    ensures
        answered_key(map, probe_id, target, hint) matches Some(key) ==> map.contains_key(key)
            && key.probe_id == probe_id && key.target == target && !map.remove(key).contains_key(
            key,
        ) && (hint matches Some(flow) ==> key.flow_id == flow),
{
}

/// An answer whose flow is unknown is never forced onto one of several
/// outstanding probes.
pub proof fn law_ambiguous_answer_refused(
    map: Map<PendingKey, PendingProbe>,
    probe_id: ProbeId,
    target: IpAddr,
    a: u8,
    b: u8,
)
    requires
        a != b,
        map.contains_key(flow_key(probe_id, a, target, false)),
        map.contains_key(flow_key(probe_id, b, target, false)),
    ensures
        answered_key(map, probe_id, target, None) is None,
{
    assert forall|flow: u8| !(#[trigger] crate::trace::pending::only_flow(
        map,
        probe_id,
        target,
        false,
        flow,
    )) by {
        if crate::trace::pending::only_flow(map, probe_id, target, false, flow) {
            assert(a == flow);
            assert(b == flow);
        }
    }
}

/// Path-MTU probes never touch hop statistics or the replay record, whether
/// they are answered or time out.
pub proof fn law_pmtud_probes_leave_hops_alone(
    resp: BatchedResponse,
    num_flows: u8,
    ipv6: bool,
    dest_ttl: Option<u8>,
    pmtud: Option<PmtudState>,
    probe: PendingProbe,
)
    requires
        resp.packet_size is Some,
        probe.packet_size is Some,
    ensures
        response_plan(resp, num_flows, ipv6, dest_ttl, pmtud).hop is None,
        response_plan(resp, num_flows, ipv6, dest_ttl, pmtud).outcome is None,
        !timeout_plan(probe, pmtud).hop_timeout,
        timeout_plan(probe, pmtud).outcome is None,
{
}

/// Answers to path-MTU probes of a size that is no longer being tried, and
/// their timeouts, change nothing in the search.
pub proof fn law_stale_pmtud_ignored(
    size: u16,
    state: PmtudState,
    response_type: IcmpResponseType,
    mtu: Option<u16>,
    probe: PendingProbe,
)
    requires
        !state.awaits(size),
        probe.packet_size == Some(size),
    ensures
        pmtud_answer(Some(size), response_type, mtu, Some(state)) == PmtudUpdate::Keep,
        timeout_plan(probe, Some(state)).pmtud == PmtudUpdate::Keep,
{
}

/// The known distance of a target never grows.
pub proof fn law_dest_ttl_never_grows(
    resp: BatchedResponse,
    num_flows: u8,
    ipv6: bool,
    dest_ttl: u8,
    pmtud: Option<PmtudState>,
)
    ensures
        response_plan(resp, num_flows, ipv6, Some(dest_ttl), pmtud).dest_ttl matches Some(d) && d
            <= dest_ttl,
{
}

/// The target is recognised by its own echo replies and by nothing else. From
/// then on its distance is the least TTL at which it has answered; no other
/// answer touches that distance.
pub proof fn law_target_recognised(
    resp: BatchedResponse,
    num_flows: u8,
    ipv6: bool,
    dest_ttl: Option<u8>,
    pmtud: Option<PmtudState>,
)
    ensures
        ({
            let plan = response_plan(resp, num_flows, ipv6, dest_ttl, pmtud);
            let itself = resp.responder == resp.target && (resp.response_type is EchoReply);
            &&& itself ==> plan.reached && (plan.dest_ttl matches Some(d) && d
                <= resp.probe_id.ttl && (dest_ttl matches Some(known) ==> d <= known) && (d
                == resp.probe_id.ttl || dest_ttl == Some(d)))
            &&& !itself ==> !plan.reached && plan.dest_ttl == dest_ttl
        }),
{
}

/// The distance of the target does not depend on the order in which two
/// answers are entered, and entering one twice is entering it once.
pub proof fn law_distance_in_any_order(
    a: BatchedResponse,
    b: BatchedResponse,
    num_flows: u8,
    ipv6: bool,
    dest_ttl: Option<u8>,
    pmtud: Option<PmtudState>,
)
    ensures
        ({
            let after_a = response_plan(a, num_flows, ipv6, dest_ttl, pmtud).dest_ttl;
            let after_b = response_plan(b, num_flows, ipv6, dest_ttl, pmtud).dest_ttl;
            &&& response_plan(b, num_flows, ipv6, after_a, pmtud).dest_ttl == response_plan(
                a,
                num_flows,
                ipv6,
                after_b,
                pmtud,
            ).dest_ttl
            &&& response_plan(a, num_flows, ipv6, after_a, pmtud).dest_ttl == after_a
        }),
{
}

} // verus!
