//! What the probe engine sends, round by round.

use crate::addr::{IpAddr, Ipv4Addr, Ipv6Addr};
use crate::config::{Config, ProbeProtocol};
use crate::probe::correlate::ParsedResponse;
use crate::probe::icmp::{
    build_echo_request, echo_request_spec, lemma_echo_request_fits, DEFAULT_PAYLOAD_SIZE,
    ICMP_HEADER_SIZE,
};
use crate::probe::rawip::{
    build_ipv4_packet, build_udp_datagram, is_ipv4_packet, udp_datagram_spec, IPPROTO_TCP,
    IPPROTO_UDP, UDP_HEADER_SIZE,
};
use crate::probe::tcp::{build_tcp_syn_sized, tcp_syn_spec};
use crate::probe::udp::{build_udp_payload_sized, udp_payload_spec, DEFAULT_UDP_PAYLOAD};
use crate::state::{IcmpResponseType, PmtudPhase, PmtudState, ProbeId};
use crate::trace::pending::{PendingKey, PendingMap, PendingProbe};
use crate::trace::receiver::{nearer, nearer_ttl, HopUpdate, PmtudUpdate, RecvEvent};
use vstd::prelude::*;

verus! {

/// Maximum echo replies to read from the send socket per round.
pub const MAX_IPV6_ECHO_DRAIN_BATCH: usize = 256;

/// TCP header length without options.
pub const TCP_HEADER_SIZE: usize = 20;

/// What probes are carried in.
#[derive(Clone, Copy, Debug, PartialEq, Eq, Structural)]
pub enum Carrier {
    /// ICMP Echo Requests, on flow 0 only.
    Echo,
    /// UDP datagrams.
    Udp,
    /// TCP SYN segments.
    Tcp,
}

/// The carrier and port after protocol detection.
#[derive(Clone, Copy, Debug, PartialEq, Eq, Structural)]
pub struct Chosen {
    pub carrier: Carrier,
    pub port: Option<u16>,
}

/// What a protocol asks for. For automatic choice, ICMP is taken if its
/// socket can be made, else UDP if its socket can be made, else TCP; the
/// latter two get their usual port where none is given.
pub open spec fn chosen(
    protocol: ProbeProtocol,
    port: Option<u16>,
    echo_works: bool,
    udp_works: bool,
) -> Chosen {
    match protocol {
        ProbeProtocol::Icmp => Chosen { carrier: Carrier::Echo, port },
        ProbeProtocol::Udp => Chosen { carrier: Carrier::Udp, port },
        ProbeProtocol::Tcp => Chosen { carrier: Carrier::Tcp, port },
        ProbeProtocol::Auto => if echo_works {
            Chosen { carrier: Carrier::Echo, port }
        } else if udp_works {
            Chosen {
                carrier: Carrier::Udp,
                port: match port {
                    Some(p) => Some(p),
                    None => Some(33434),
                },
            }
        } else {
            Chosen {
                carrier: Carrier::Tcp,
                port: match port {
                    Some(p) => Some(p),
                    None => Some(80),
                },
            }
        },
    }
}

/// Chooses the carrier; the two flags say which sockets can be made (they
/// matter only for automatic choice).
pub fn choose_carrier(
    protocol: ProbeProtocol,
    port: Option<u16>,
    echo_works: bool,
    udp_works: bool,
) -> (r: Chosen)
    ensures
        r == chosen(protocol, port, echo_works, udp_works),
{
    match protocol {
        ProbeProtocol::Icmp => Chosen { carrier: Carrier::Echo, port },
        ProbeProtocol::Udp => Chosen { carrier: Carrier::Udp, port },
        ProbeProtocol::Tcp => Chosen { carrier: Carrier::Tcp, port },
        ProbeProtocol::Auto => if echo_works {
            Chosen { carrier: Carrier::Echo, port }
        } else if udp_works {
            Chosen {
                carrier: Carrier::Udp,
                port: match port {
                    Some(p) => Some(p),
                    None => Some(33434),
                },
            }
        } else {
            Chosen {
                carrier: Carrier::Tcp,
                port: match port {
                    Some(p) => Some(p),
                    None => Some(80),
                },
            }
        },
    }
}

/// Counters of a probe engine.
#[derive(Clone, Copy, Debug, PartialEq, Eq, Structural)]
pub struct Rounds {
    /// Sequence number of the next round's probes.
    pub seq: u8,
    /// Sequence number of the next path-MTU probe.
    pub pmtud_seq: u8,
    pub completed: u64,
}

/// What to do at a tick of the probe interval.
#[derive(Clone, Copy, Debug, PartialEq, Eq, Structural)]
pub enum Tick {
    /// Nothing: probing is paused.
    Wait,
    /// All rounds are done: stop everything.
    Finish,
    /// Send a round of probes up to this TTL.
    Probe(u8),
}

impl Rounds {
    /// Nothing sent yet.
    pub fn new() -> (r: Rounds)
        ensures
            r == (Rounds { seq: 0, pmtud_seq: 0, completed: 0 }),
    {
        Rounds { seq: 0, pmtud_seq: 0, completed: 0 }
    }

    /// Decides what to do at a tick. Once the distance of the target is
    /// known, probes go no further.
    pub fn tick(&self, paused: bool, count: Option<u64>, dest_ttl: Option<u8>, max_ttl: u8) -> (r:
        Tick)
        ensures
            r == (if paused {
                Tick::Wait
            } else if count matches Some(n) && self.completed >= n {
                Tick::Finish
            } else {
                Tick::Probe(
                    match dest_ttl {
                        Some(ttl) => ttl,
                        None => max_ttl,
                    },
                )
            }),
    {
        if paused {
            return Tick::Wait;
        }
        if let Some(n) = count {
            if self.completed >= n {
                return Tick::Finish;
            }
        }
        Tick::Probe(
            match dest_ttl {
                Some(ttl) => ttl,
                None => max_ttl,
            },
        )
    }

    /// Counts a round. Sequence numbers start over after 255.
    pub fn round_done(&mut self)
        requires
            old(self).completed < u64::MAX,
        ensures
            final(self).seq == (old(self).seq + 1) % 256,
            final(self).pmtud_seq == old(self).pmtud_seq,
            final(self).completed == old(self).completed + 1,
    {
        self.seq = self.seq.wrapping_add(1);
        self.completed = self.completed + 1;
    }

    /// Counts a path-MTU probe that was sent.
    pub fn pmtud_sent(&mut self)
        ensures
            final(self).seq == old(self).seq,
            final(self).pmtud_seq == (old(self).pmtud_seq + 1) % 256,
            final(self).completed == old(self).completed,
    {
        self.pmtud_seq = self.pmtud_seq.wrapping_add(1);
    }
}

/// Bytes of IP and transport header.
pub open spec fn header_bytes(carrier: Carrier, ipv6: bool) -> int {
    (if ipv6 {
        40int
    } else {
        20
    }) + (match carrier {
        Carrier::Echo => 8int,
        Carrier::Udp => 8,
        Carrier::Tcp => 20,
    })
}

/// Payload bytes of probes: what the packet size leaves after the headers, or
/// the default of the carrier.
pub open spec fn payload_bytes(carrier: Carrier, ipv6: bool, packet_size: Option<u16>) -> int {
    match packet_size {
        Some(size) => if size >= header_bytes(carrier, ipv6) {
            size - header_bytes(carrier, ipv6)
        } else {
            0
        },
        None => match carrier {
            Carrier::Echo => DEFAULT_PAYLOAD_SIZE as int,
            Carrier::Udp => DEFAULT_UDP_PAYLOAD as int,
            Carrier::Tcp => 0,
        },
    }
}

/// Payload bytes of probes.
pub fn payload_size(carrier: Carrier, ipv6: bool, packet_size: Option<u16>) -> (r: usize)
    ensures
        r == payload_bytes(carrier, ipv6, packet_size),
        r + 20 <= 65535,
{
    let transport: usize = match carrier {
        Carrier::Echo => ICMP_HEADER_SIZE,
        Carrier::Udp => UDP_HEADER_SIZE,
        Carrier::Tcp => TCP_HEADER_SIZE,
    };
    let ip: usize = if ipv6 {
        40
    } else {
        20
    };
    match packet_size {
        Some(size) => (size as usize).saturating_sub(ip + transport),
        None => match carrier {
            Carrier::Echo => DEFAULT_PAYLOAD_SIZE,
            Carrier::Udp => DEFAULT_UDP_PAYLOAD,
            Carrier::Tcp => 0,
        },
    }
}

/// A probe to be sent.
#[derive(Clone, Copy, Debug, PartialEq, Eq, Structural)]
pub struct PlannedProbe {
    pub probe_id: ProbeId,
    pub flow_id: u8,
    pub src_port: Option<u16>,
    pub dst_port: Option<u16>,
    pub payload_size: usize,
}

/// The destination port of TTL 0.
pub open spec fn first_port(carrier: Carrier, port: Option<u16>) -> u16 {
    match port {
        Some(p) => p,
        None => match carrier {
            Carrier::Tcp => 80,
            _ => 33434,
        },
    }
}

/// How many flows are used: ICMP has no ports to tell flows apart.
pub open spec fn flow_count(carrier: Carrier, flows: u8) -> u8 {
    match carrier {
        Carrier::Echo => 1,
        _ => flows,
    }
}

/// The probe of a flow and a TTL.
pub open spec fn planned(
    config: Config,
    carrier: Carrier,
    ipv6: bool,
    seq: u8,
    flow: u8,
    ttl: u8,
) -> PlannedProbe {
    PlannedProbe {
        probe_id: ProbeId { ttl, seq },
        flow_id: flow,
        src_port: match carrier {
            Carrier::Echo => None,
            _ => Some((config.src_port_base + flow) as u16),
        },
        dst_port: match carrier {
            Carrier::Echo => None,
            _ => Some(
                if config.port_fixed {
                    first_port(carrier, config.port)
                } else {
                    (first_port(carrier, config.port) + ttl) as u16
                },
            ),
        },
        payload_size: payload_bytes(carrier, ipv6, config.packet_size) as usize,
    }
}

/// The probes of a flow, nearest first.
pub open spec fn planned_flow(
    config: Config,
    carrier: Carrier,
    ipv6: bool,
    seq: u8,
    flow: u8,
    max_ttl: u8,
) -> Seq<PlannedProbe> {
    Seq::new(
        max_ttl as nat,
        |i: int| planned(config, carrier, ipv6, seq, flow, (i + 1) as u8),
    )
}

/// The probes of the first `flows` flows, one flow after the other.
pub open spec fn planned_round(
    config: Config,
    carrier: Carrier,
    ipv6: bool,
    seq: u8,
    flows: nat,
    max_ttl: u8,
) -> Seq<PlannedProbe>
    decreases flows,
{
    if flows == 0 {
        Seq::empty()
    } else {
        planned_round(config, carrier, ipv6, seq, (flows - 1) as nat, max_ttl) + planned_flow(
            config,
            carrier,
            ipv6,
            seq,
            (flows - 1) as u8,
            max_ttl,
        )
    }
}

/// Whether every port of a round is in range.
pub open spec fn ports_in_range(config: Config, carrier: Carrier, max_ttl: u8) -> bool {
    carrier != Carrier::Echo ==> {
        &&& config.flows > 0 ==> config.src_port_base + config.flows - 1 <= 65535
        &&& !config.port_fixed ==> first_port(carrier, config.port) + max_ttl <= 65535
    }
}

/// Whether every port of a round is in range.
pub fn ports_fit(config: &Config, carrier: Carrier, max_ttl: u8) -> (r: bool)
    ensures
        r == ports_in_range(*config, carrier, max_ttl),
{
    let first: u16 = match config.port {
        Some(p) => p,
        None => match carrier {
            Carrier::Tcp => 80,
            _ => 33434,
        },
    };
    match carrier {
        Carrier::Echo => true,
        _ => (config.flows == 0 || config.src_port_base <= 65535 - (config.flows as u16 - 1)) && (
        config.port_fixed || first <= 65535 - max_ttl as u16),
    }
}

/// Plans a round of probes: every flow, every TTL from 1 to `max_ttl`.
pub fn plan_round(config: &Config, carrier: Carrier, ipv6: bool, seq: u8, max_ttl: u8) -> (r: Vec<
    PlannedProbe,
>)
    requires
        ports_in_range(*config, carrier, max_ttl),
    ensures
        r@ == planned_round(
            *config,
            carrier,
            ipv6,
            seq,
            flow_count(carrier, config.flows) as nat,
            max_ttl,
        ),
{
    let size: usize = payload_size(carrier, ipv6, config.packet_size);
    let echo: bool = match carrier {
        Carrier::Echo => true,
        _ => false,
    };
    let flows: u8 = if echo {
        1
    } else {
        config.flows
    };
    let base: u16 = match config.port {
        Some(p) => p,
        None => match carrier {
            Carrier::Tcp => 80,
            _ => 33434,
        },
    };
    let mut round: Vec<PlannedProbe> = Vec::new();
    let mut flow: u8 = 0;
    while flow < flows
        invariant
            flow <= flows,
            flows == flow_count(carrier, config.flows),
            echo == (carrier == Carrier::Echo),
            base == first_port(carrier, config.port),
            size == payload_bytes(carrier, ipv6, config.packet_size),
            ports_in_range(*config, carrier, max_ttl),
            round@ == planned_round(*config, carrier, ipv6, seq, flow as nat, max_ttl),
        decreases flows - flow,
    {
        let ghost before = round@;
        let mut done: u8 = 0;
        while done < max_ttl
            invariant
                done <= max_ttl,
                flow < flows,
                flows == flow_count(carrier, config.flows),
                echo == (carrier == Carrier::Echo),
                base == first_port(carrier, config.port),
                size == payload_bytes(carrier, ipv6, config.packet_size),
                ports_in_range(*config, carrier, max_ttl),
                round@ =~= before + planned_flow(
                    *config,
                    carrier,
                    ipv6,
                    seq,
                    flow,
                    max_ttl,
                ).take(done as int),
            decreases max_ttl - done,
        {
            let ttl: u8 = done + 1;
            let probe = PlannedProbe {
                probe_id: ProbeId::new(ttl, seq),
                flow_id: flow,
                src_port: if echo {
                    None
                } else {
                    Some(config.src_port_base + flow as u16)
                },
                dst_port: if echo {
                    None
                } else if config.port_fixed {
                    Some(base)
                } else {
                    Some(base + ttl as u16)
                },
                payload_size: size,
            };
            round.push(probe);
            proof {
                let row = planned_flow(*config, carrier, ipv6, seq, flow, max_ttl);
                assert(probe == row[done as int]);
                assert(row.take(done + 1) =~= row.take(done as int).push(row[done as int]));
            }
            done = done + 1;
        }
        proof {
            let row = planned_flow(*config, carrier, ipv6, seq, flow, max_ttl);
            assert(row.take(max_ttl as int) =~= row);
        }
        flow = flow + 1;
    }
    round
}

/// Registers a probe as outstanding, before it is sent.
pub fn register_probe(pending: &mut PendingMap, probe: &PlannedProbe, target: IpAddr, sent_at: u64)
    requires
        old(pending).wf(),
    ensures
        final(pending).wf(),
        final(pending)@ == old(pending)@.insert(
            probe_key(*probe, target),
            (PendingProbe {
                sent_at,
                target,
                flow_id: probe.flow_id,
                original_src_port: probe.src_port,
                packet_size: None,
            }),
        ),
{
    pending.insert(
        PendingKey { probe_id: probe.probe_id, flow_id: probe.flow_id, target, is_pmtud: false },
        PendingProbe {
            sent_at,
            target,
            flow_id: probe.flow_id,
            original_src_port: probe.src_port,
            packet_size: None,
        },
    );
}

/// The key of a planned probe.
pub open spec fn probe_key(probe: PlannedProbe, target: IpAddr) -> PendingKey {
    PendingKey { probe_id: probe.probe_id, flow_id: probe.flow_id, target, is_pmtud: false }
}

/// Takes a probe back that could not be sent.
pub fn forget_probe(pending: &mut PendingMap, probe: &PlannedProbe, target: IpAddr)
    requires
        old(pending).wf(),
    ensures
        final(pending).wf(),
        final(pending)@ == old(pending)@.remove(probe_key(*probe, target)),
{
    pending.remove(
        &PendingKey { probe_id: probe.probe_id, flow_id: probe.flow_id, target, is_pmtud: false },
    );
}

/// The key of a path-MTU probe.
pub open spec fn pmtud_key(dest_ttl: u8, seq: u8, target: IpAddr) -> PendingKey {
    PendingKey { probe_id: ProbeId { ttl: dest_ttl, seq }, flow_id: 0, target, is_pmtud: true }
}

/// Registers a path-MTU probe as outstanding, before it is sent.
pub fn register_pmtud(
    pending: &mut PendingMap,
    dest_ttl: u8,
    seq: u8,
    target: IpAddr,
    packet_size: u16,
    sent_at: u64,
)
    requires
        old(pending).wf(),
    ensures
        final(pending).wf(),
        final(pending)@ == old(pending)@.insert(
            pmtud_key(dest_ttl, seq, target),
            (PendingProbe {
                sent_at,
                target,
                flow_id: 0,
                original_src_port: None,
                packet_size: Some(packet_size),
            }),
        ),
{
    pending.insert(
        PendingKey { probe_id: ProbeId::new(dest_ttl, seq), flow_id: 0, target, is_pmtud: true },
        PendingProbe {
            sent_at,
            target,
            flow_id: 0,
            original_src_port: None,
            packet_size: Some(packet_size),
        },
    );
}

/// Takes a path-MTU probe back that could not be sent.
pub fn forget_pmtud(pending: &mut PendingMap, dest_ttl: u8, seq: u8, target: IpAddr)
    requires
        old(pending).wf(),
    ensures
        final(pending).wf(),
        final(pending)@ == old(pending)@.remove(pmtud_key(dest_ttl, seq, target)),
{
    pending.remove(
        &PendingKey { probe_id: ProbeId::new(dest_ttl, seq), flow_id: 0, target, is_pmtud: true },
    );
}

/// Builds the IPv4 packet of an ICMP probe; path-MTU probes forbid
/// fragmentation.
pub fn echo_packet_v4(
    identifier: u16,
    probe_id: ProbeId,
    size: usize,
    pmtud: bool,
    timestamp: u32,
    src: Ipv4Addr,
    dst: Ipv4Addr,
    tos: u8,
    host_order: bool,
) -> (r: Vec<u8>)
    requires
        size <= 65535,
    ensures
        is_ipv4_packet(
            r@,
            src,
            dst,
            1,
            probe_id.ttl,
            tos,
            pmtud,
            echo_request_spec(
                identifier,
                probe_id.sequence(),
                size as int,
                false,
                None,
                pmtud,
                timestamp,
            ),
            host_order,
        ),
{
    proof {
        lemma_echo_request_fits(
            identifier,
            probe_id.sequence(),
            size as int,
            false,
            pmtud,
            timestamp,
        );
    }
    let message: Vec<u8> = build_echo_request(
        identifier,
        probe_id.to_sequence(),
        size,
        false,
        None,
        pmtud,
        timestamp,
    );
    build_ipv4_packet(
        src,
        dst,
        1,
        probe_id.ttl,
        tos,
        pmtud,
        message.as_slice(),
        host_order,
    )
}

/// Builds the ICMPv6 message of a probe.
pub fn echo_message_v6(
    identifier: u16,
    probe_id: ProbeId,
    size: usize,
    pmtud: bool,
    timestamp: u32,
    addrs: Option<(Ipv6Addr, Ipv6Addr)>,
) -> (r: Vec<u8>)
    requires
        size <= 65535,
    ensures
        r@ == echo_request_spec(
            identifier,
            probe_id.sequence(),
            size as int,
            true,
            addrs,
            pmtud,
            timestamp,
        ),
{
    build_echo_request(identifier, probe_id.to_sequence(), size, true, addrs, pmtud, timestamp)
}

/// Builds the IPv4 packet of a UDP probe.
pub fn udp_packet_v4(
    probe_id: ProbeId,
    size: usize,
    src_port: u16,
    dst_port: u16,
    src: Ipv4Addr,
    dst: Ipv4Addr,
    tos: u8,
    host_order: bool,
) -> (r: Vec<u8>)
    requires
        size <= 65535,
    ensures
        is_ipv4_packet(
            r@,
            src,
            dst,
            17,
            probe_id.ttl,
            tos,
            false,
            udp_datagram_spec(src, dst, src_port, dst_port, udp_payload_spec(probe_id, size as int)),
            host_order,
        ),
{
    let payload: Vec<u8> = build_udp_payload_sized(probe_id, size);
    let datagram: Vec<u8> = build_udp_datagram(src, dst, src_port, dst_port, payload.as_slice());
    build_ipv4_packet(
        src,
        dst,
        IPPROTO_UDP,
        probe_id.ttl,
        tos,
        false,
        datagram.as_slice(),
        host_order,
    )
}

/// Wraps a TCP segment into the IPv4 packet of a probe.
pub fn tcp_packet_v4(
    segment: &[u8],
    ttl: u8,
    src: Ipv4Addr,
    dst: Ipv4Addr,
    tos: u8,
    host_order: bool,
) -> (r: Vec<u8>)
    requires
        segment@.len() + 20 <= usize::MAX,
    ensures
        is_ipv4_packet(r@, src, dst, 6, ttl, tos, false, segment@, host_order),
{
    build_ipv4_packet(src, dst, IPPROTO_TCP, ttl, tos, false, segment, host_order)
}

/// The protocol number of a carrier in IPv4.
pub open spec fn protocol_v4(carrier: Carrier) -> u8 {
    match carrier {
        Carrier::Echo => 1,
        Carrier::Udp => 17,
        Carrier::Tcp => 6,
    }
}

/// A port, zero where there is none.
pub open spec fn port_or_zero(port: Option<u16>) -> u16 {
    match port {
        Some(p) => p,
        None => 0,
    }
}

/// What an IPv4 packet with a planned probe carries.
pub open spec fn probe_transport_v4(
    carrier: Carrier,
    identifier: u16,
    probe: PlannedProbe,
    timestamp: u32,
    src: Ipv4Addr,
    dst: Ipv4Addr,
) -> Seq<u8> {
    match carrier {
        Carrier::Echo => echo_request_spec(
            identifier,
            probe.probe_id.sequence(),
            probe.payload_size as int,
            false,
            None,
            false,
            timestamp,
        ),
        Carrier::Udp => udp_datagram_spec(
            src,
            dst,
            port_or_zero(probe.src_port),
            port_or_zero(probe.dst_port),
            udp_payload_spec(probe.probe_id, probe.payload_size as int),
        ),
        Carrier::Tcp => tcp_syn_spec(
            probe.probe_id,
            port_or_zero(probe.src_port),
            port_or_zero(probe.dst_port),
            IpAddr::V4(src),
            IpAddr::V4(dst),
            probe.payload_size as nat,
        ),
    }
}

/// Builds the IPv4 packet of a planned probe.
pub fn probe_packet_v4(
    carrier: Carrier,
    identifier: u16,
    probe: &PlannedProbe,
    timestamp: u32,
    src: Ipv4Addr,
    dst: Ipv4Addr,
    tos: u8,
    host_order: bool,
) -> (r: Vec<u8>)
    requires
        probe.payload_size + 20 <= 65535,
    ensures
        is_ipv4_packet(
            r@,
            src,
            dst,
            protocol_v4(carrier),
            probe.probe_id.ttl,
            tos,
            false,
            probe_transport_v4(carrier, identifier, *probe, timestamp, src, dst),
            host_order,
        ),
{
    let src_port: u16 = probe.src_port.unwrap_or(0);
    let dst_port: u16 = probe.dst_port.unwrap_or(0);
    let id: ProbeId = probe.probe_id;
    let size: usize = probe.payload_size;
    match carrier {
        Carrier::Echo => echo_packet_v4(
            identifier,
            id,
            size,
            false,
            timestamp,
            src,
            dst,
            tos,
            host_order,
        ),
        Carrier::Udp => udp_packet_v4(id, size, src_port, dst_port, src, dst, tos, host_order),
        Carrier::Tcp => {
            let segment: Vec<u8> = build_tcp_syn_sized(
                id,
                src_port,
                dst_port,
                IpAddr::V4(src),
                IpAddr::V4(dst),
                size,
            );
            tcp_packet_v4(segment.as_slice(), id.ttl, src, dst, tos, host_order)
        },
    }
}

/// What is handed to an IPv6 socket for a planned probe: an ICMPv6 message,
/// the payload of a UDP datagram, or a TCP segment.
pub open spec fn probe_message_spec_v6(
    carrier: Carrier,
    identifier: u16,
    probe: PlannedProbe,
    timestamp: u32,
    src: IpAddr,
    target: IpAddr,
) -> Seq<u8> {
    match carrier {
        Carrier::Echo => echo_request_spec(
            identifier,
            probe.probe_id.sequence(),
            probe.payload_size as int,
            true,
            both_v6(src, target),
            false,
            timestamp,
        ),
        Carrier::Udp => udp_payload_spec(probe.probe_id, probe.payload_size as int),
        Carrier::Tcp => tcp_syn_spec(
            probe.probe_id,
            port_or_zero(probe.src_port),
            port_or_zero(probe.dst_port),
            src,
            target,
            probe.payload_size as nat,
        ),
    }
}

/// Builds what is handed to an IPv6 socket for a planned probe.
pub fn probe_message_v6(
    carrier: Carrier,
    identifier: u16,
    probe: &PlannedProbe,
    timestamp: u32,
    src: IpAddr,
    target: IpAddr,
) -> (r: Vec<u8>)
    requires
        probe.payload_size + 20 <= 65535,
    ensures
        r@ == probe_message_spec_v6(carrier, identifier, *probe, timestamp, src, target),
{
    let id: ProbeId = probe.probe_id;
    let size: usize = probe.payload_size;
    match carrier {
        Carrier::Echo => echo_message_v6(
            identifier,
            id,
            size,
            false,
            timestamp,
            v6_pair(src, target),
        ),
        Carrier::Udp => build_udp_payload_sized(id, size),
        Carrier::Tcp => build_tcp_syn_sized(
            id,
            probe.src_port.unwrap_or(0),
            probe.dst_port.unwrap_or(0),
            src,
            target,
            size,
        ),
    }
}

/// Both addresses, if both are IPv6.
pub open spec fn both_v6(src: IpAddr, target: IpAddr) -> Option<(Ipv6Addr, Ipv6Addr)> {
    match (src, target) {
        (IpAddr::V6(s), IpAddr::V6(d)) => Some((s, d)),
        _ => None,
    }
}

/// Both addresses, if both are IPv6: the checksum of an ICMPv6 message covers
/// them.
pub fn v6_pair(src: IpAddr, target: IpAddr) -> (r: Option<(Ipv6Addr, Ipv6Addr)>)
    ensures
        r == both_v6(src, target),
{
    match (src, target) {
        (IpAddr::V6(s), IpAddr::V6(d)) => Some((s, d)),
        _ => None,
    }
}

/// The IPv4 source address of a trace: the configured one, else the one that
/// routing gives (the unspecified address if that is none). A configured IPv6
/// address is an error.
pub fn ipv4_src(source_ip: Option<IpAddr>, routed: IpAddr) -> (r: Result<Ipv4Addr, String>)
    ensures
        match source_ip {
            Some(IpAddr::V4(s)) => r == Ok::<Ipv4Addr, String>(s),
            Some(IpAddr::V6(_)) => r is Err && r->Err_0@
                == "--source-ip is an IPv6 address but the target is IPv4"@,
            None => r == Ok::<Ipv4Addr, String>(
                match routed {
                    IpAddr::V4(s) => s,
                    IpAddr::V6(_) => Ipv4Addr { bits: 0 },
                },
            ),
        },
{
    match source_ip {
        Some(IpAddr::V4(s)) => Ok(s),
        Some(IpAddr::V6(_)) => Err(
            crate::text::copy_of("--source-ip is an IPv6 address but the target is IPv4"),
        ),
        None => match routed {
            IpAddr::V4(s) => Ok(s),
            IpAddr::V6(_) => Ok(Ipv4Addr { bits: 0 }),
        },
    }
}

/// The address to bind an IPv4 socket to: the configured one, so that a
/// foreign address fails at once.
pub fn ipv4_bind_src(source_ip: Option<IpAddr>) -> (r: Option<Ipv4Addr>)
    ensures
        r == (match source_ip {
            Some(IpAddr::V4(s)) => Some(s),
            _ => None,
        }),
{
    match source_ip {
        Some(IpAddr::V4(s)) => Some(s),
        _ => None,
    }
}

/// The ToS byte: DSCP in the upper six bits.
pub fn ipv4_tos(dscp: Option<u8>) -> (r: u8)
    ensures
        r == (match dscp {
            Some(d) => ((d * 4) % 256) as u8,
            None => 0,
        }),
{
    match dscp {
        Some(d) => ((d as u32 * 4) % 256) as u8,
        None => 0,
    }
}

/// Whether a path-MTU probe is due.
#[derive(Clone, Copy, Debug, PartialEq, Eq, Structural)]
pub enum PmtudReady {
    /// No.
    NotDue,
    /// The search is to be started; the probe goes this far.
    Start(u8),
    /// The search goes on; the probe goes this far.
    Due(u8),
}

/// Decides whether a path-MTU probe is due: not before the distance of the
/// target is known, not after the search is over.
pub fn check_pmtud_ready(enabled: bool, dest_ttl: Option<u8>, pmtud: Option<PmtudState>) -> (r:
    PmtudReady)
    ensures
        r == (match (dest_ttl, pmtud) {
            (Some(ttl), Some(state)) => if !enabled {
                PmtudReady::NotDue
            } else {
                match state.phase {
                    PmtudPhase::WaitingForDestination => PmtudReady::Start(ttl),
                    PmtudPhase::Searching => PmtudReady::Due(ttl),
                    PmtudPhase::Complete => PmtudReady::NotDue,
                }
            },
            _ => PmtudReady::NotDue,
        }),
{
    if !enabled {
        return PmtudReady::NotDue;
    }
    match (dest_ttl, pmtud) {
        (Some(ttl), Some(state)) => match state.phase {
            PmtudPhase::WaitingForDestination => PmtudReady::Start(ttl),
            PmtudPhase::Searching => PmtudReady::Due(ttl),
            PmtudPhase::Complete => PmtudReady::NotDue,
        },
        _ => PmtudReady::NotDue,
    }
}

/// The size to try, while searching.
pub fn get_pmtud_probe_size(pmtud: Option<PmtudState>) -> (r: Option<u16>)
    ensures
        r == (match pmtud {
            Some(state) => if state.phase == PmtudPhase::Searching {
                Some(state.current_size)
            } else {
                None
            },
            None => None,
        }),
{
    match pmtud {
        Some(state) => match state.phase {
            PmtudPhase::Searching => Some(state.current_size),
            _ => None,
        },
        None => None,
    }
}

/// Gives the search up if fragmentation cannot be forbidden on this platform;
/// any other failure to forbid it leaves the search as it is.
pub fn handle_pmtud_df_error(pmtud: &mut Option<PmtudState>, unsupported: bool)
    ensures
        *final(pmtud) == (match *old(pmtud) {
            Some(state) => Some(
                if unsupported {
                    PmtudState { phase: PmtudPhase::Complete, discovered_mtu: None, ..state }
                } else {
                    state
                },
            ),
            None => None,
        }),
{
    if unsupported {
        if let Some(state) = *pmtud {
            *pmtud = Some(
                PmtudState { phase: PmtudPhase::Complete, discovered_mtu: None, ..state },
            );
        }
    }
}

/// What an echo reply read from the send socket changes in the session.
#[derive(Clone, Copy, Debug, PartialEq, Eq, Structural)]
pub struct PolledPlan {
    /// What to record of the hop; nothing for path-MTU probes.
    pub hop: Option<HopUpdate>,
    /// Round-trip time in nanoseconds.
    pub rtt: u64,
    /// Whether the target itself answered.
    pub reached: bool,
    /// The target's distance afterwards.
    pub dest_ttl: Option<u8>,
    pub pmtud: PmtudUpdate,
}

/// What to record of a hop for an echo reply read from the send socket: echo
/// requests have one flow and no ports.
pub open spec fn polled_update(response_ttl: Option<u8>) -> HopUpdate {
    HopUpdate {
        detect_flaps: true,
        flow_id: 0,
        sent_port: None,
        returned_port: None,
        response_ttl,
        ipv6: true,
        manipulated_ttl: None,
    }
}

/// What an answered probe's reply, read from the send socket, changes.
pub open spec fn polled_plan(
    parsed: ParsedResponse,
    probe: PendingProbe,
    target: IpAddr,
    response_ttl: Option<u8>,
    now: u64,
    dest_ttl: Option<u8>,
    pmtud: Option<PmtudState>,
) -> PolledPlan {
    let reached = parsed.responder == target;
    PolledPlan {
        hop: if probe.packet_size is None {
            Some(polled_update(response_ttl))
        } else {
            None
        },
        rtt: crate::trace::receiver::elapsed(probe.sent_at, now),
        reached,
        dest_ttl: if reached {
            nearer(dest_ttl, parsed.probe_id.ttl)
        } else {
            dest_ttl
        },
        pmtud: match (probe.packet_size, pmtud) {
            (Some(size), Some(state)) => if state.awaits(size) {
                PmtudUpdate::Success
            } else {
                PmtudUpdate::Keep
            },
            _ => PmtudUpdate::Keep,
        },
    }
}

/// Whether the send socket is read once more: as long as packets come, the
/// trace goes on and not too many have been read. `last` is what the last
/// reading came to, if there was one, `drained` how many packets have been
/// read.
pub fn poll_goes_on(last: Option<RecvEvent>, drained: usize, cancelled: bool) -> (r: bool)
    ensures
        r == ((last is None || last == Some(RecvEvent::Packet)) && !cancelled && drained
            < MAX_IPV6_ECHO_DRAIN_BATCH),
{
    let came: bool = match last {
        Some(RecvEvent::Packet) | None => true,
        _ => false,
    };
    came && !cancelled && drained < MAX_IPV6_ECHO_DRAIN_BATCH
}

/// Whether a parsed answer is to be handled when it is read from the send
/// socket: only echo replies are, all else is the receiver's.
pub fn is_polled_reply(parsed: &ParsedResponse) -> (r: bool)
    ensures
        r == (parsed.response_type == IcmpResponseType::EchoReply),
{
    match parsed.response_type {
        IcmpResponseType::EchoReply => true,
        _ => false,
    }
}

/// Decides what an echo reply read from the send socket changes.
pub fn plan_polled_reply(
    parsed: &ParsedResponse,
    probe: &PendingProbe,
    target: IpAddr,
    response_ttl: Option<u8>,
    now: u64,
    dest_ttl: Option<u8>,
    pmtud: Option<PmtudState>,
) -> (r: PolledPlan)
    ensures
        r == polled_plan(*parsed, *probe, target, response_ttl, now, dest_ttl, pmtud),
{
    let reached: bool = parsed.responder == target;
    let update: PmtudUpdate = match (probe.packet_size, pmtud) {
        (Some(size), Some(state)) => match state.phase {
            PmtudPhase::Searching => if size == state.current_size {
                PmtudUpdate::Success
            } else {
                PmtudUpdate::Keep
            },
            _ => PmtudUpdate::Keep,
        },
        _ => PmtudUpdate::Keep,
    };
    PolledPlan {
        hop: if probe.packet_size.is_none() {
            Some(
                HopUpdate {
                    detect_flaps: true,
                    flow_id: 0,
                    sent_port: None,
                    returned_port: None,
                    response_ttl,
                    ipv6: true,
                    manipulated_ttl: None,
                },
            )
        } else {
            None
        },
        rtt: if now >= probe.sent_at {
            now - probe.sent_at
        } else {
            0
        },
        reached,
        dest_ttl: if reached {
            nearer_ttl(dest_ttl, parsed.probe_id.ttl)
        } else {
            dest_ttl
        },
        pmtud: update,
    }
}

/// The flow of a planned probe is read back from its source port.
pub proof fn law_flow_read_back(
    config: Config,
    carrier: Carrier,
    ipv6: bool,
    seq: u8,
    flow: u8,
    ttl: u8,
)
    requires
        flow < flow_count(carrier, config.flows),
        config.src_port_base + config.flows <= 65536,
        carrier == Carrier::Echo ==> config.flows == 1,
    ensures
        crate::trace::receiver::flow_hint(
            config.src_port_base,
            config.flows,
            planned(config, carrier, ipv6, seq, flow, ttl).src_port,
        ) == Some(flow),
{
}

/// An answer that quotes the source port of a planned probe takes that very
/// probe, as long as it is outstanding.
pub proof fn law_answer_finds_probe(
    map: Map<PendingKey, PendingProbe>,
    config: Config,
    carrier: Carrier,
    ipv6: bool,
    seq: u8,
    flow: u8,
    ttl: u8,
    target: IpAddr,
)
    requires
        flow < flow_count(carrier, config.flows),
        config.src_port_base + config.flows <= 65536,
        carrier == Carrier::Echo ==> config.flows == 1,
        map.contains_key(probe_key(planned(config, carrier, ipv6, seq, flow, ttl), target)),
    ensures
        ({
            let probe = planned(config, carrier, ipv6, seq, flow, ttl);
            let hint = crate::trace::receiver::flow_hint(
                config.src_port_base,
                config.flows,
                probe.src_port,
            );
            crate::trace::receiver::answered_key(map, probe.probe_id, target, hint) == Some(
                probe_key(probe, target),
            )
        }),
{
    law_flow_read_back(config, carrier, ipv6, seq, flow, ttl);
}

/// Every round has a probe for each flow and TTL.
pub proof fn law_round_covers_all(
    config: Config,
    carrier: Carrier,
    ipv6: bool,
    seq: u8,
    flows: nat,
    max_ttl: u8,
    flow: u8,
    ttl: u8,
)
    requires
        flow < flows <= 256,
        1 <= ttl <= max_ttl,
    ensures
        planned_round(config, carrier, ipv6, seq, flows, max_ttl).contains(
            planned(config, carrier, ipv6, seq, flow, ttl),
        ),
        planned_round(config, carrier, ipv6, seq, flows, max_ttl).len() == flows * max_ttl,
    decreases flows,
{
    let all = planned_round(config, carrier, ipv6, seq, flows, max_ttl);
    let before = planned_round(config, carrier, ipv6, seq, (flows - 1) as nat, max_ttl);
    let row = planned_flow(config, carrier, ipv6, seq, (flows - 1) as u8, max_ttl);
    lemma_round_len(config, carrier, ipv6, seq, flows, max_ttl);
    if flow == flows - 1 {
        assert(row[ttl - 1] == planned(config, carrier, ipv6, seq, flow, ttl));
        assert(all[before.len() + ttl - 1] == row[ttl - 1]);
    } else {
        law_round_covers_all(config, carrier, ipv6, seq, (flows - 1) as nat, max_ttl, flow, ttl);
        let i = choose|i: int|
            0 <= i < before.len() && before[i] == planned(config, carrier, ipv6, seq, flow, ttl);
        assert(all[i] == before[i]);
    }
}

pub proof fn lemma_round_len(
    config: Config,
    carrier: Carrier,
    ipv6: bool,
    seq: u8,
    flows: nat,
    max_ttl: u8,
)
    ensures
        planned_round(config, carrier, ipv6, seq, flows, max_ttl).len() == flows * max_ttl,
    decreases flows,
{
    if flows > 0 {
        lemma_round_len(config, carrier, ipv6, seq, (flows - 1) as nat, max_ttl);
        assert(((flows - 1) as nat) * max_ttl + max_ttl == flows * max_ttl) by (nonlinear_arith)
            requires
                flows > 0,
        ;
    } else {
        assert(flows * max_ttl == 0) by (nonlinear_arith)
            requires
                flows == 0,
        ;
    }
}

} // verus!
