//! From a probe that is sent to the answer that is matched with it.

use crate::addr::{IpAddr, Ipv4Addr, Ipv6Addr};
use crate::config::Config;
use crate::probe::correlate::{message_response_v4, message_response_v6};
use crate::probe::icmp::echo_request_spec;
use crate::probe::laws::{
    law_echo_reply_v4_recognised, law_echo_reply_v6_recognised, law_error_recovers_echo_probe,
    law_error_recovers_tcp_probe, law_error_recovers_udp_probe, law_error_v6_recovers_echo_probe,
    law_error_v6_recovers_tcp_probe, law_error_v6_recovers_udp_probe, quotes_v4, quotes_v6,
};
use crate::probe::quoted::message_checksum_ok;
use crate::probe::rawip::is_ipv4_packet;
use crate::trace::engine::{
    both_v6, flow_count, law_answer_finds_probe, payload_bytes, planned,
    port_or_zero, probe_key, probe_message_spec_v6, probe_transport_v4, protocol_v4, Carrier,
};
use crate::trace::pending::{PendingKey, PendingProbe};
use crate::trace::receiver::{answered_among, concerned, flow_hint};
use crate::wire::be16_spec;
use vstd::prelude::*;

verus! {

/// How much of a probe packet an ICMPv4 error must quote for its probe to be
/// found.
pub open spec fn needed_quote_v4(carrier: Carrier) -> int {
    match carrier {
        Carrier::Echo => 28,
        Carrier::Udp => 34,
        Carrier::Tcp => 28,
    }
}

/// Whether a session can tell its flows apart: their ports exist, and echo
/// requests, which have none, use a single flow.
pub open spec fn flows_told(config: Config, carrier: Carrier, flow: u8) -> bool {
    &&& flow < flow_count(carrier, config.flows)
    &&& config.src_port_base + config.flows <= 65536
    &&& carrier == Carrier::Echo ==> config.flows == 1
}

/// A router or host that quotes enough of an IPv4 probe in an error message
/// is matched with that very probe, as long as it is outstanding, whatever
/// else is being traced.
pub proof fn law_quoted_probe_found(
    map: Map<PendingKey, PendingProbe>,
    targets: Seq<IpAddr>,
    config: Config,
    carrier: Carrier,
    seq: u8,
    flow: u8,
    ttl: u8,
    identifier: u16,
    timestamp: u32,
    src: Ipv4Addr,
    dst: Ipv4Addr,
    tos: u8,
    host_order: bool,
    packet: Seq<u8>,
    message: Seq<u8>,
    n: int,
    responder: IpAddr,
)
    requires
        flows_told(config, carrier, flow),
        is_ipv4_packet(
            packet,
            src,
            dst,
            protocol_v4(carrier),
            ttl,
            tos,
            false,
            probe_transport_v4(
                carrier,
                identifier,
                planned(config, carrier, false, seq, flow, ttl),
                timestamp,
                src,
                dst,
            ),
            host_order,
        ),
        quotes_v4(message, packet, n),
        n >= needed_quote_v4(carrier),
        message[0] == 11 || message[0] == 3,
        map.contains_key(
            probe_key(planned(config, carrier, false, seq, flow, ttl), IpAddr::V4(dst)),
        ),
    ensures
        message_response_v4(message, responder, identifier) matches Some(r) && r.responder
            == responder && answered_among(
            map,
            r.probe_id,
            concerned(r.original_dest, targets),
            flow_hint(config.src_port_base, config.flows, r.src_port),
        ) == Some(
            probe_key(planned(config, carrier, false, seq, flow, ttl), IpAddr::V4(dst)),
        ),
{
    let probe = planned(config, carrier, false, seq, flow, ttl);
    let size = payload_bytes(carrier, false, config.packet_size);
    assert(0 <= size <= 65535 && probe.payload_size == size);
    match carrier {
        Carrier::Echo => law_error_recovers_echo_probe(
            message,
            packet,
            n,
            responder,
            identifier,
            probe.probe_id,
            size,
            false,
            timestamp,
            src,
            dst,
            ttl,
            tos,
            false,
            host_order,
        ),
        Carrier::Udp => law_error_recovers_udp_probe(
            message,
            packet,
            n,
            responder,
            identifier,
            probe.probe_id,
            size,
            port_or_zero(probe.src_port),
            port_or_zero(probe.dst_port),
            src,
            dst,
            ttl,
            tos,
            false,
            host_order,
        ),
        Carrier::Tcp => law_error_recovers_tcp_probe(
            message,
            packet,
            n,
            responder,
            identifier,
            probe.probe_id,
            size as nat,
            port_or_zero(probe.src_port),
            port_or_zero(probe.dst_port),
            src,
            dst,
            ttl,
            tos,
            false,
            host_order,
        ),
    }
    law_answer_finds_probe(map, config, carrier, false, seq, flow, ttl, IpAddr::V4(dst));
    let all = concerned(Some(IpAddr::V4(dst)), targets);
    assert(all[0] == IpAddr::V4(dst));
}

/// What an IPv6 packet with a probe carries: what was handed to the socket,
/// behind the kernel's header where the probe is a UDP datagram.
pub open spec fn carried_v6(
    carried: Seq<u8>,
    config: Config,
    carrier: Carrier,
    seq: u8,
    flow: u8,
    ttl: u8,
    identifier: u16,
    timestamp: u32,
    src: IpAddr,
    dst: Ipv6Addr,
) -> bool {
    let probe = planned(config, carrier, true, seq, flow, ttl);
    let handed = probe_message_spec_v6(
        carrier,
        identifier,
        probe,
        timestamp,
        src,
        IpAddr::V6(dst),
    );
    match carrier {
        Carrier::Udp => {
            &&& carried.len() == 8 + handed.len()
            &&& be16_spec(carried[0], carried[1]) == port_or_zero(probe.src_port)
            &&& carried.skip(8) == handed
        },
        _ => carried == handed,
    }
}

/// The protocol number of a carrier in IPv6.
pub open spec fn protocol_v6(carrier: Carrier) -> u8 {
    match carrier {
        Carrier::Echo => 58,
        Carrier::Udp => 17,
        Carrier::Tcp => 6,
    }
}

/// The same holds of IPv6 probes.
pub proof fn law_quoted_probe_found_v6(
    map: Map<PendingKey, PendingProbe>,
    targets: Seq<IpAddr>,
    config: Config,
    carrier: Carrier,
    seq: u8,
    flow: u8,
    ttl: u8,
    identifier: u16,
    timestamp: u32,
    src: IpAddr,
    dst: Ipv6Addr,
    carried: Seq<u8>,
    message: Seq<u8>,
    n: int,
    responder: IpAddr,
)
    requires
        flows_told(config, carrier, flow),
        carried_v6(carried, config, carrier, seq, flow, ttl, identifier, timestamp, src, dst),
        quotes_v6(message, dst, protocol_v6(carrier), carried, n),
        carrier == Carrier::Udp ==> n >= 14,
        1 <= message[0] <= 3,
        map.contains_key(
            probe_key(planned(config, carrier, true, seq, flow, ttl), IpAddr::V6(dst)),
        ),
    ensures
        message_response_v6(message, responder, identifier) matches Some(r) && r.responder
            == responder && answered_among(
            map,
            r.probe_id,
            concerned(r.original_dest, targets),
            flow_hint(config.src_port_base, config.flows, r.src_port),
        ) == Some(
            probe_key(planned(config, carrier, true, seq, flow, ttl), IpAddr::V6(dst)),
        ),
{
    let probe = planned(config, carrier, true, seq, flow, ttl);
    let size = payload_bytes(carrier, true, config.packet_size);
    assert(0 <= size <= 65535 && probe.payload_size == size);
    match carrier {
        Carrier::Echo => law_error_v6_recovers_echo_probe(
            message,
            n,
            responder,
            identifier,
            probe.probe_id,
            size,
            both_v6(src, IpAddr::V6(dst)),
            dst,
            false,
            timestamp,
        ),
        Carrier::Udp => {
            let header = carried.take(8);
            assert(carried =~= header + carried.skip(8));
            law_error_v6_recovers_udp_probe(
                message,
                n,
                responder,
                identifier,
                probe.probe_id,
                size,
                header,
                dst,
            );
        },
        Carrier::Tcp => law_error_v6_recovers_tcp_probe(
            message,
            n,
            responder,
            identifier,
            probe.probe_id,
            size as nat,
            port_or_zero(probe.src_port),
            port_or_zero(probe.dst_port),
            src,
            dst,
        ),
    }
    law_answer_finds_probe(map, config, carrier, true, seq, flow, ttl, IpAddr::V6(dst));
    let all = concerned(Some(IpAddr::V6(dst)), targets);
    assert(all[0] == IpAddr::V6(dst));
}

/// An intact Echo Reply of the target to a probe is matched with that very
/// probe, as long as it is outstanding.
pub proof fn law_replied_probe_found(
    map: Map<PendingKey, PendingProbe>,
    targets: Seq<IpAddr>,
    config: Config,
    seq: u8,
    ttl: u8,
    identifier: u16,
    timestamp: u32,
    dst: Ipv4Addr,
    message: Seq<u8>,
)
    requires
        flows_told(config, Carrier::Echo, 0),
        message.len() >= 8,
        message[0] == 0,
        message_checksum_ok(message),
        ({
            let probe = planned(config, Carrier::Echo, false, seq, 0, ttl);
            message.skip(6) == echo_request_spec(
                identifier,
                probe.probe_id.sequence(),
                probe.payload_size as int,
                false,
                None,
                false,
                timestamp,
            ).skip(6)
        }),
        map.contains_key(
            probe_key(planned(config, Carrier::Echo, false, seq, 0, ttl), IpAddr::V4(dst)),
        ),
    ensures
        message_response_v4(message, IpAddr::V4(dst), identifier) matches Some(r) && r.responder
            == IpAddr::V4(dst) && answered_among(
            map,
            r.probe_id,
            concerned(r.original_dest, targets),
            flow_hint(config.src_port_base, config.flows, r.src_port),
        ) == Some(
            probe_key(planned(config, Carrier::Echo, false, seq, 0, ttl), IpAddr::V4(dst)),
        ),
{
    let probe = planned(config, Carrier::Echo, false, seq, 0, ttl);
    law_echo_reply_v4_recognised(
        message,
        IpAddr::V4(dst),
        identifier,
        probe.probe_id,
        probe.payload_size as int,
        false,
        timestamp,
    );
    law_answer_finds_probe(map, config, Carrier::Echo, false, seq, 0, ttl, IpAddr::V4(dst));
    let all = concerned(Some(IpAddr::V4(dst)), targets);
    assert(all[0] == IpAddr::V4(dst));
}

/// The same holds of ICMPv6 Echo Replies.
pub proof fn law_replied_probe_found_v6(
    map: Map<PendingKey, PendingProbe>,
    targets: Seq<IpAddr>,
    config: Config,
    seq: u8,
    ttl: u8,
    identifier: u16,
    timestamp: u32,
    src: IpAddr,
    dst: Ipv6Addr,
    message: Seq<u8>,
)
    requires
        flows_told(config, Carrier::Echo, 0),
        message.len() >= 8,
        message[0] == 129,
        ({
            let probe = planned(config, Carrier::Echo, true, seq, 0, ttl);
            message.skip(6) == probe_message_spec_v6(
                Carrier::Echo,
                identifier,
                probe,
                timestamp,
                src,
                IpAddr::V6(dst),
            ).skip(6)
        }),
        map.contains_key(
            probe_key(planned(config, Carrier::Echo, true, seq, 0, ttl), IpAddr::V6(dst)),
        ),
    ensures
        message_response_v6(message, IpAddr::V6(dst), identifier) matches Some(r) && r.responder
            == IpAddr::V6(dst) && answered_among(
            map,
            r.probe_id,
            concerned(r.original_dest, targets),
            flow_hint(config.src_port_base, config.flows, r.src_port),
        ) == Some(
            probe_key(planned(config, Carrier::Echo, true, seq, 0, ttl), IpAddr::V6(dst)),
        ),
{
    let probe = planned(config, Carrier::Echo, true, seq, 0, ttl);
    law_echo_reply_v6_recognised(
        message,
        IpAddr::V6(dst),
        identifier,
        probe.probe_id,
        probe.payload_size as int,
        both_v6(src, IpAddr::V6(dst)),
        false,
        timestamp,
    );
    law_answer_finds_probe(map, config, Carrier::Echo, true, seq, 0, ttl, IpAddr::V6(dst));
    let all = concerned(Some(IpAddr::V6(dst)), targets);
    assert(all[0] == IpAddr::V6(dst));
}

} // verus!
