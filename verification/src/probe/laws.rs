//! What reading an answer gives back of the probe that was written.

use crate::addr::{lemma_v4_octets_injective, lemma_v6_of_segments, v4_bits, IpAddr, Ipv4Addr, Ipv6Addr};
use crate::probe::correlate::{
    message_response_v4, message_response_v6, packet_response_v4,
    parse_icmp_extensions_with_length, parse_icmp_response, response_view, ParsedResponse,
};
use crate::probe::icmp::{echo_payload, echo_payload_byte, echo_payload_len, echo_request_spec};
use crate::probe::quoted::{
    label_stack, labels_view, message_checksum_ok, payload_identity, quote_v4, quote_v6, segment_at, transport_of_v6, v6_at,
    walk_headers,
};
use crate::probe::rawip::{is_ipv4_packet, udp_datagram_spec};
use crate::probe::tcp::{law_tcp_probe_round_trip, tcp_probe_id, tcp_syn_spec};
use crate::probe::udp::udp_payload_spec;
use crate::state::{IcmpResponseType, MplsLabel, ProbeId};
use crate::wire::{be16_spec, be32_spec, hi8_spec, lo8_spec};
use vstd::prelude::*;

verus! {

/// The marker byte of a payload tells whether the probe was a path-MTU probe,
/// and a reply that carries a request from its sequence number on has the
/// request's payload.
proof fn lemma_reply_payload(
    message: Seq<u8>,
    identifier: u16,
    probe_id: ProbeId,
    payload_size: int,
    ipv6: bool,
    addrs: Option<(Ipv6Addr, Ipv6Addr)>,
    pmtud: bool,
    timestamp: u32,
)
    requires
        message.len() >= 8,
        message.skip(6) == echo_request_spec(
            identifier,
            probe_id.sequence(),
            payload_size,
            ipv6,
            addrs,
            pmtud,
            timestamp,
        ).skip(6),
    ensures
        be16_spec(message[6], message[7]) == probe_id.sequence(),
        message.skip(8) == echo_payload(
            identifier,
            probe_id.sequence(),
            payload_size,
            pmtud,
            timestamp,
        ),
        payload_identity(message.skip(8), identifier) == Some((identifier, probe_id.sequence())),
        crate::probe::quoted::marked_payload(message.skip(8)) == (pmtud && echo_payload_len(
            payload_size,
        ) > 8),
{
    let request = echo_request_spec(
        identifier,
        probe_id.sequence(),
        payload_size,
        ipv6,
        addrs,
        pmtud,
        timestamp,
    );
    let payload = echo_payload(identifier, probe_id.sequence(), payload_size, pmtud, timestamp);
    assert(message[6] == message.skip(6)[0] && message[7] == message.skip(6)[1]);
    assert(request[6] == request.skip(6)[0] && request[7] == request.skip(6)[1]);
    assert(message.skip(8) =~= message.skip(6).skip(2));
    assert(request.skip(8) =~= request.skip(6).skip(2));
    assert(request.skip(8) =~= payload);
    assert(payload[0] == hi8_spec(identifier) && payload[1] == lo8_spec(identifier));
    assert(payload[2] == hi8_spec(probe_id.sequence()) && payload[3] == lo8_spec(
        probe_id.sequence(),
    ));
    if payload.len() > 8 {
        assert(payload[8] == echo_payload_byte(
            identifier,
            probe_id.sequence(),
            timestamp,
            pmtud,
            8,
        ));
    }
}

/// An intact ICMPv4 Echo Reply that carries a request's bytes from the
/// sequence number on is recognised as the answer to that very probe, even if
/// the identifier in its header was rewritten on the way; and it is told
/// whether the probe was a path-MTU probe.
pub proof fn law_echo_reply_v4_recognised(
    message: Seq<u8>,
    responder: IpAddr,
    identifier: u16,
    probe_id: ProbeId,
    payload_size: int,
    pmtud: bool,
    timestamp: u32,
)
    requires
        message.len() >= 8,
        message[0] == 0,
        message_checksum_ok(message),
        message.skip(6) == echo_request_spec(
            identifier,
            probe_id.sequence(),
            payload_size,
            false,
            None,
            pmtud,
            timestamp,
        ).skip(6),
    ensures
        message_response_v4(message, responder, identifier) matches Some(r) && r.probe_id
            == probe_id && r.is_pmtud == (pmtud && echo_payload_len(payload_size) > 8)
            && r.response_type == IcmpResponseType::EchoReply && r.responder == responder
            && r.original_dest == Some(responder),
{
    lemma_reply_payload(
        message,
        identifier,
        probe_id,
        payload_size,
        false,
        None,
        pmtud,
        timestamp,
    );
    crate::state::law_probe_id_round_trip(probe_id);
}

/// The same holds of ICMPv6 Echo Replies, whose checksum the kernel checks.
pub proof fn law_echo_reply_v6_recognised(
    message: Seq<u8>,
    responder: IpAddr,
    identifier: u16,
    probe_id: ProbeId,
    payload_size: int,
    addrs: Option<(Ipv6Addr, Ipv6Addr)>,
    pmtud: bool,
    timestamp: u32,
)
    requires
        message.len() >= 8,
        message[0] == 129,
        message.skip(6) == echo_request_spec(
            identifier,
            probe_id.sequence(),
            payload_size,
            true,
            addrs,
            pmtud,
            timestamp,
        ).skip(6),
    ensures
        message_response_v6(message, responder, identifier) matches Some(r) && r.probe_id
            == probe_id && r.is_pmtud == (pmtud && echo_payload_len(payload_size) > 8)
            && r.response_type == IcmpResponseType::EchoReply && r.responder == responder
            && r.original_dest == Some(responder),
{
    lemma_reply_payload(
        message,
        identifier,
        probe_id,
        payload_size,
        true,
        addrs,
        pmtud,
        timestamp,
    );
    crate::state::law_probe_id_round_trip(probe_id);
}

/// Whether an error message quotes `n` bytes of a packet. Routers rewrite the
/// TTL, the header checksum and, some of them, the length and fragment
/// fields; the rest comes as it was sent.
pub open spec fn quotes_v4(message: Seq<u8>, packet: Seq<u8>, n: int) -> bool {
    &&& 20 <= n <= packet.len()
    &&& message.len() >= 8 + n
    &&& message[8] == packet[0]
    &&& message[17] == packet[9]
    &&& forall|i: int| 16 <= i < n ==> #[trigger] message[8 + i] == packet[i]
}

/// The fields of a packet that a quote is read by.
proof fn lemma_quoted_header(
    message: Seq<u8>,
    packet: Seq<u8>,
    n: int,
    src: Ipv4Addr,
    dst: Ipv4Addr,
    protocol: u8,
    ttl: u8,
    tos: u8,
    dont_fragment: bool,
    transport: Seq<u8>,
    host_order: bool,
)
    requires
        is_ipv4_packet(
            packet,
            src,
            dst,
            protocol,
            ttl,
            tos,
            dont_fragment,
            transport,
            host_order,
        ),
        quotes_v4(message, packet, n),
    ensures
        ({
            let quoted = message.skip(8);
            &&& quoted[0] == 0x45
            &&& quoted[9] == protocol
            &&& quoted.skip(20).take(n - 20) == transport.take(n - 20)
            &&& quoted.len() >= n
            &&& packet.len() == 20 + transport.len()
            &&& v4_bits(quoted[16], quoted[17], quoted[18], quoted[19]) == dst.bits
        }),
{
    let quoted = message.skip(8);
    assert(packet[0] == 0x45);
    assert(packet[9] == protocol);
    assert(quoted[9] == message[17]);
    assert forall|i: int| 16 <= i < n implies #[trigger] quoted[i] == packet[i] by {
        assert(quoted[i] == message[8 + i]);
    }
    assert forall|i: int| 0 <= i < n - 20 implies #[trigger] quoted.skip(20).take(n - 20)[i]
        == transport.take(n - 20)[i] by {
        assert(quoted.skip(20).take(n - 20)[i] == quoted[20 + i]);
        assert(packet[20 + i] == transport[i]);
    }
    assert(quoted.skip(20).take(n - 20) =~= transport.take(n - 20));
    let octets = dst.octets_spec();
    assert(packet[16] == octets[0] && packet[17] == octets[1] && packet[18] == octets[2]
        && packet[19] == octets[3]);
    let read = Ipv4Addr { bits: v4_bits(quoted[16], quoted[17], quoted[18], quoted[19]) };
    crate::addr::lemma_v4_octets(quoted[16], quoted[17], quoted[18], quoted[19]);
    assert(read.octets_spec() =~= octets);
    lemma_v4_octets_injective(read, dst);
}

/// An ICMPv4 error that quotes at least the first 28 bytes of an ICMP probe
/// packet tells which probe it was, where it was going, and the TTL it
/// arrived with.
pub proof fn law_error_recovers_echo_probe(
    message: Seq<u8>,
    packet: Seq<u8>,
    n: int,
    responder: IpAddr,
    identifier: u16,
    probe_id: ProbeId,
    payload_size: int,
    pmtud: bool,
    timestamp: u32,
    src: Ipv4Addr,
    dst: Ipv4Addr,
    ttl: u8,
    tos: u8,
    dont_fragment: bool,
    host_order: bool,
)
    requires
        is_ipv4_packet(
            packet,
            src,
            dst,
            1,
            ttl,
            tos,
            dont_fragment,
            echo_request_spec(
                identifier,
                probe_id.sequence(),
                payload_size,
                false,
                None,
                pmtud,
                timestamp,
            ),
            host_order,
        ),
        quotes_v4(message, packet, n),
        n >= 28,
        message[0] == 11 || message[0] == 3,
    ensures
        message_response_v4(message, responder, identifier) matches Some(r) && r.probe_id
            == probe_id && r.original_dest == Some(IpAddr::V4(dst)) && r.quoted_ttl == Some(
            message[16],
        ) && r.src_port is None && r.responder == responder && !r.is_pmtud,
{
    let request = echo_request_spec(
        identifier,
        probe_id.sequence(),
        payload_size,
        false,
        None,
        pmtud,
        timestamp,
    );
    lemma_quoted_header(
        message,
        packet,
        n,
        src,
        dst,
        1,
        ttl,
        tos,
        dont_fragment,
        request,
        host_order,
    );
    let quoted = message.skip(8);
    let transport = quoted.skip(20);
    assert forall|i: int| 0 <= i < 8 implies #[trigger] transport[i] == request[i] by {
        assert(transport.take(n - 20)[i] == request.take(n - 20)[i]);
    }
    assert(quoted.skip((quoted[0] % 16) * 4) == transport);
    crate::state::law_probe_id_round_trip(probe_id);
    assert(quote_v4(message, identifier) is Some);
}

/// An ICMPv4 error that quotes at least the first 34 bytes of a UDP probe
/// packet tells which probe it was, its source port (so its flow), and where
/// it was going.
pub proof fn law_error_recovers_udp_probe(
    message: Seq<u8>,
    packet: Seq<u8>,
    n: int,
    responder: IpAddr,
    identifier: u16,
    probe_id: ProbeId,
    payload_size: int,
    src_port: u16,
    dst_port: u16,
    src: Ipv4Addr,
    dst: Ipv4Addr,
    ttl: u8,
    tos: u8,
    dont_fragment: bool,
    host_order: bool,
)
    requires
        is_ipv4_packet(
            packet,
            src,
            dst,
            17,
            ttl,
            tos,
            dont_fragment,
            udp_datagram_spec(src, dst, src_port, dst_port, udp_payload_spec(probe_id, payload_size)),
            host_order,
        ),
        quotes_v4(message, packet, n),
        n >= 34,
        message[0] == 11 || message[0] == 3,
    ensures
        message_response_v4(message, responder, identifier) matches Some(r) && r.probe_id
            == probe_id && r.src_port == Some(src_port) && r.original_dest == Some(IpAddr::V4(dst))
            && r.quoted_ttl == Some(message[16]) && r.responder == responder,
{
    let payload = udp_payload_spec(probe_id, payload_size);
    let dgram = udp_datagram_spec(src, dst, src_port, dst_port, payload);
    lemma_quoted_header(
        message,
        packet,
        n,
        src,
        dst,
        17,
        ttl,
        tos,
        dont_fragment,
        dgram,
        host_order,
    );
    let quoted = message.skip(8);
    let transport = quoted.skip(20);
    assert forall|i: int| 0 <= i < 14 implies #[trigger] transport[i] == dgram[i] by {
        assert(transport.take(n - 20)[i] == dgram.take(n - 20)[i]);
    }
    let quoted_payload = transport.skip(8);
    assert forall|i: int| 0 <= i < 6 implies #[trigger] quoted_payload[i] == payload[i] by {
        assert(quoted_payload[i] == transport[8 + i]);
        assert(dgram[8 + i] == payload[i]);
    }
    assert(quoted_payload.take(6) =~= payload.take(6));
    crate::probe::udp::law_udp_payload_round_trip(probe_id, payload_size, quoted_payload);
    assert(quoted.skip((quoted[0] % 16) * 4) == transport);
    assert(dgram[0] == hi8_spec(src_port) && dgram[1] == lo8_spec(src_port));
    crate::wire::lemma_be16_of_bytes(src_port);
    assert(quote_v4(message, identifier) is Some);
}

/// An ICMPv4 error that quotes at least the first 28 bytes of a TCP probe
/// packet tells which probe it was, its source port (so its flow), and where
/// it was going.
pub proof fn law_error_recovers_tcp_probe(
    message: Seq<u8>,
    packet: Seq<u8>,
    n: int,
    responder: IpAddr,
    identifier: u16,
    probe_id: ProbeId,
    payload_size: nat,
    src_port: u16,
    dst_port: u16,
    src: Ipv4Addr,
    dst: Ipv4Addr,
    ttl: u8,
    tos: u8,
    dont_fragment: bool,
    host_order: bool,
)
    requires
        is_ipv4_packet(
            packet,
            src,
            dst,
            6,
            ttl,
            tos,
            dont_fragment,
            tcp_syn_spec(
                probe_id,
                src_port,
                dst_port,
                IpAddr::V4(src),
                IpAddr::V4(dst),
                payload_size,
            ),
            host_order,
        ),
        quotes_v4(message, packet, n),
        n >= 28,
        message[0] == 11 || message[0] == 3,
    ensures
        message_response_v4(message, responder, identifier) matches Some(r) && r.probe_id
            == probe_id && r.src_port == Some(src_port) && r.original_dest == Some(IpAddr::V4(dst))
            && r.quoted_ttl == Some(message[16]) && r.responder == responder,
{
    let segment = tcp_syn_spec(
        probe_id,
        src_port,
        dst_port,
        IpAddr::V4(src),
        IpAddr::V4(dst),
        payload_size,
    );
    lemma_quoted_header(
        message,
        packet,
        n,
        src,
        dst,
        6,
        ttl,
        tos,
        dont_fragment,
        segment,
        host_order,
    );
    let quoted = message.skip(8);
    let transport = quoted.skip(20);
    assert forall|i: int| 0 <= i < 8 implies #[trigger] transport[i] == segment[i] by {
        assert(transport.take(n - 20)[i] == segment.take(n - 20)[i]);
    }
    lemma_quoted_segment(transport, probe_id, src_port, dst_port, IpAddr::V4(src), IpAddr::V4(
        dst,
    ), payload_size);
    assert(quoted.skip((quoted[0] % 16) * 4) == transport);
    assert(quote_v4(message, identifier) is Some);
}

/// What eight quoted bytes of a SYN segment tell.
proof fn lemma_quoted_segment(
    transport: Seq<u8>,
    probe_id: ProbeId,
    src_port: u16,
    dst_port: u16,
    src: IpAddr,
    dst: IpAddr,
    payload_size: nat,
)
    requires
        transport.len() >= 8,
        forall|i: int|
            0 <= i < 8 ==> #[trigger] transport[i] == tcp_syn_spec(
                probe_id,
                src_port,
                dst_port,
                src,
                dst,
                payload_size,
            )[i],
    ensures
        tcp_probe_id(transport) == Some(probe_id),
        be16_spec(transport[0], transport[1]) == src_port,
{
    let segment = tcp_syn_spec(probe_id, src_port, dst_port, src, dst, payload_size);
    law_tcp_probe_round_trip(probe_id, src_port, dst_port, src, dst, payload_size);
    assert(transport[4] == segment.take(8)[4] && transport[5] == segment.take(8)[5]);
    assert(segment[0] == hi8_spec(src_port) && segment[1] == lo8_spec(src_port));
    crate::wire::lemma_be16_of_bytes(src_port);
}

/// Whether an ICMPv6 error message quotes an IPv6 packet to `dst` without
/// extension headers, and `n` bytes of what it carries.
pub open spec fn quotes_v6(
    message: Seq<u8>,
    dst: Ipv6Addr,
    protocol: u8,
    carried: Seq<u8>,
    n: int,
) -> bool {
    &&& 8 <= n <= carried.len()
    &&& message.len() >= 48 + n
    &&& message[14] == protocol
    &&& forall|i: int|
        0 <= i < 8 ==> #[trigger] segment_at(message.skip(8), 24, i) == dst.segments_spec()[i]
    &&& forall|i: int| 0 <= i < n ==> #[trigger] message[48 + i] == carried[i]
}

/// The fields of an IPv6 packet that a quote is read by.
proof fn lemma_quoted_header_v6(
    message: Seq<u8>,
    dst: Ipv6Addr,
    protocol: u8,
    carried: Seq<u8>,
    n: int,
)
    requires
        quotes_v6(message, dst, protocol, carried, n),
        protocol == 58 || protocol == 17 || protocol == 6,
    ensures
        ({
            let packet = message.skip(8);
            &&& transport_of_v6(packet) == Some((40int, protocol))
            &&& v6_at(packet, 24) == dst
            &&& packet.skip(40).len() >= n
            &&& forall|i: int| 0 <= i < n ==> #[trigger] packet.skip(40)[i] == carried[i]
        }),
{
    let packet = message.skip(8);
    assert(walk_headers(packet, protocol, 40) == Some((40int, protocol)));
    assert(packet[6] == message[14]);
    let transport = packet.skip(40);
    assert forall|i: int| 0 <= i < n implies #[trigger] transport[i] == carried[i] by {
        assert(transport[i] == message[48 + i]);
    }
    assert(seq![
        segment_at(packet, 24, 0),
        segment_at(packet, 24, 1),
        segment_at(packet, 24, 2),
        segment_at(packet, 24, 3),
        segment_at(packet, 24, 4),
        segment_at(packet, 24, 5),
        segment_at(packet, 24, 6),
        segment_at(packet, 24, 7),
    ] =~= dst.segments_spec());
    lemma_v6_of_segments(dst);
}

/// An ICMPv6 error that quotes at least the IPv6 header and the first eight
/// bytes of an ICMPv6 probe tells which probe it was and where it was going.
pub proof fn law_error_v6_recovers_echo_probe(
    message: Seq<u8>,
    n: int,
    responder: IpAddr,
    identifier: u16,
    probe_id: ProbeId,
    payload_size: int,
    addrs: Option<(Ipv6Addr, Ipv6Addr)>,
    dst: Ipv6Addr,
    pmtud: bool,
    timestamp: u32,
)
    requires
        1 <= message[0] <= 3,
        quotes_v6(
            message,
            dst,
            58,
            echo_request_spec(
                identifier,
                probe_id.sequence(),
                payload_size,
                true,
                addrs,
                pmtud,
                timestamp,
            ),
            n,
        ),
    ensures
        message_response_v6(message, responder, identifier) matches Some(r) && r.probe_id
            == probe_id && r.original_dest == Some(IpAddr::V6(dst)) && r.quoted_ttl == Some(
            message[15],
        ) && r.src_port is None && r.responder == responder,
{
    let request = echo_request_spec(
        identifier,
        probe_id.sequence(),
        payload_size,
        true,
        addrs,
        pmtud,
        timestamp,
    );
    lemma_quoted_header_v6(message, dst, 58, request, n);
    let transport = message.skip(8).skip(40);
    assert forall|i: int| 0 <= i < 8 implies #[trigger] transport[i] == request[i] by {}
    crate::state::law_probe_id_round_trip(probe_id);
    assert(quote_v6(message, identifier) is Some);
}

/// An ICMPv6 error that quotes at least the IPv6 header, the UDP header and
/// the first six bytes of a UDP probe's payload tells which probe it was, its
/// source port and where it was going. The UDP header is the kernel's: of it
/// only the source port is known.
pub proof fn law_error_v6_recovers_udp_probe(
    message: Seq<u8>,
    n: int,
    responder: IpAddr,
    identifier: u16,
    probe_id: ProbeId,
    payload_size: int,
    header: Seq<u8>,
    dst: Ipv6Addr,
)
    requires
        1 <= message[0] <= 3,
        header.len() == 8,
        quotes_v6(message, dst, 17, header + udp_payload_spec(probe_id, payload_size), n),
        n >= 14,
    ensures
        message_response_v6(message, responder, identifier) matches Some(r) && r.probe_id
            == probe_id && r.src_port == Some(be16_spec(header[0], header[1])) && r.original_dest
            == Some(IpAddr::V6(dst)) && r.quoted_ttl == Some(message[15]) && r.responder
            == responder,
{
    let payload = udp_payload_spec(probe_id, payload_size);
    let dgram = header + payload;
    lemma_quoted_header_v6(message, dst, 17, dgram, n);
    let transport = message.skip(8).skip(40);
    let quoted_payload = transport.skip(8);
    assert forall|i: int| 0 <= i < 6 implies #[trigger] quoted_payload[i] == payload[i] by {
        assert(quoted_payload[i] == transport[8 + i]);
        assert(dgram[8 + i] == payload[i]);
    }
    assert(quoted_payload.take(6) =~= payload.take(6));
    crate::probe::udp::law_udp_payload_round_trip(probe_id, payload_size, quoted_payload);
    assert(transport[0] == dgram[0] && transport[1] == dgram[1]);
    assert(quote_v6(message, identifier) is Some);
}

/// An ICMPv6 error that quotes at least the IPv6 header and the first eight
/// bytes of a TCP probe tells which probe it was, its source port and where
/// it was going.
pub proof fn law_error_v6_recovers_tcp_probe(
    message: Seq<u8>,
    n: int,
    responder: IpAddr,
    identifier: u16,
    probe_id: ProbeId,
    payload_size: nat,
    src_port: u16,
    dst_port: u16,
    src: IpAddr,
    dst: Ipv6Addr,
)
    requires
        1 <= message[0] <= 3,
        quotes_v6(
            message,
            dst,
            6,
            tcp_syn_spec(probe_id, src_port, dst_port, src, IpAddr::V6(dst), payload_size),
            n,
        ),
    ensures
        message_response_v6(message, responder, identifier) matches Some(r) && r.probe_id
            == probe_id && r.src_port == Some(src_port) && r.original_dest == Some(IpAddr::V6(dst))
            && r.quoted_ttl == Some(message[15]) && r.responder == responder,
{
    let segment = tcp_syn_spec(
        probe_id,
        src_port,
        dst_port,
        src,
        IpAddr::V6(dst),
        payload_size,
    );
    lemma_quoted_header_v6(message, dst, 6, segment, n);
    let transport = message.skip(8).skip(40);
    assert forall|i: int| 0 <= i < 8 implies #[trigger] transport[i] == segment[i] by {}
    lemma_quoted_segment(
        transport,
        probe_id,
        src_port,
        dst_port,
        src,
        IpAddr::V6(dst),
        payload_size,
    );
    assert(quote_v6(message, identifier) is Some);
}

/// A quoted IPv6 packet that is a fragment, carries nothing, or whose
/// extension headers run past the quote is never taken for a probe.
pub proof fn law_unwalkable_quote_rejected(message: Seq<u8>, responder: IpAddr, identifier: u16)
    requires
        message.len() >= 8,
        1 <= message[0] <= 3,
        transport_of_v6(message.skip(8)) is None,
    ensures
        message_response_v6(message, responder, identifier) is None,
{
}

/// A raw IPv4 packet is read as the message behind its header, however long
/// the header's options are.
pub proof fn law_raw_packet_is_message(
    header: Seq<u8>,
    message: Seq<u8>,
    responder: IpAddr,
    identifier: u16,
)
    requires
        header.len() >= 20,
        header.len() == (header[0] % 16) * 4,
    ensures
        packet_response_v4(header + message, responder, identifier) == message_response_v4(
            message,
            responder,
            identifier,
        ),
{
    assert((header + message).skip(header.len() as int) =~= message);
}

/// The MTU that a router wrote into the last two bytes of the header of an
/// ICMPv4 Destination Unreachable of code 4 (Fragmentation Needed), high byte
/// first, is read back as that number. Zero, any other code and any other
/// message report no MTU.
pub proof fn law_reported_mtu_v4(message: Seq<u8>, responder: IpAddr, identifier: u16, m: int)
    requires
        message.len() >= 8,
        m == message[6] * 256 + message[7],
    ensures
        message_response_v4(message, responder, identifier) matches Some(r) ==> {
            if message[0] == 3 && message[1] == 4 && m > 0 {
                r.mtu matches Some(read) && read == m
            } else {
                r.mtu is None
            }
        },
{
}

/// A router that cannot forward a probe of ours, and says so with its MTU and
/// at least the first 28 bytes of the probe, is understood: the probe is
/// found, and the MTU is the one written.
pub proof fn law_fragmentation_needed_understood(
    message: Seq<u8>,
    packet: Seq<u8>,
    n: int,
    responder: IpAddr,
    identifier: u16,
    probe_id: ProbeId,
    payload_size: int,
    pmtud: bool,
    timestamp: u32,
    src: Ipv4Addr,
    dst: Ipv4Addr,
    ttl: u8,
    tos: u8,
    dont_fragment: bool,
    host_order: bool,
    m: u16,
)
    requires
        is_ipv4_packet(
            packet,
            src,
            dst,
            1,
            ttl,
            tos,
            dont_fragment,
            echo_request_spec(
                identifier,
                probe_id.sequence(),
                payload_size,
                false,
                None,
                pmtud,
                timestamp,
            ),
            host_order,
        ),
        quotes_v4(message, packet, n),
        n >= 28,
        message[0] == 3,
        message[1] == 4,
        message[6] == m / 256,
        message[7] == m % 256,
        m > 0,
    ensures
        message_response_v4(message, responder, identifier) matches Some(r) && r.probe_id
            == probe_id && r.mtu == Some(m) && r.response_type
            == IcmpResponseType::DestUnreachable(4),
{
    law_error_recovers_echo_probe(
        message,
        packet,
        n,
        responder,
        identifier,
        probe_id,
        payload_size,
        pmtud,
        timestamp,
        src,
        dst,
        ttl,
        tos,
        dont_fragment,
        host_order,
    );
    law_reported_mtu_v4(message, responder, identifier, m + 0);
}

/// The MTU that a router wrote into the last four bytes of the header of an
/// ICMPv6 Packet Too Big, highest byte first, is read back as that number if
/// it fits sixteen bits and is not zero. No other message reports an MTU.
pub proof fn law_reported_mtu_v6(message: Seq<u8>, responder: IpAddr, identifier: u16, m: int)
    requires
        message.len() >= 8,
        m == message[4] * 0x100_0000 + message[5] * 0x1_0000 + message[6] * 0x100 + message[7],
    ensures
        message_response_v6(message, responder, identifier) matches Some(r) ==> {
            if message[0] == 2 && 0 < m <= 65535 {
                r.mtu matches Some(read) && read == m
            } else {
                r.mtu is None
            }
        },
{
}

/// What kind of message it is follows from its first two bytes: of ICMPv4, 0
/// is an echo reply, 11 a TTL that ran out and 3 an unreachable destination,
/// the latter two with their code; of ICMPv6 these are 129, 3 and 1, and 2
/// says that the packet was too big. Nothing else answers a probe.
pub proof fn law_kinds_of_answers(message: Seq<u8>, responder: IpAddr, identifier: u16)
    ensures
        message_response_v4(message, responder, identifier) matches Some(r) ==> message.len() >= 8
            && r.responder == responder && {
            ||| message[0] == 0 && r.response_type == IcmpResponseType::EchoReply
            ||| message[0] == 11 && r.response_type == IcmpResponseType::TimeExceeded(message[1])
            ||| message[0] == 3 && r.response_type == IcmpResponseType::DestUnreachable(message[1])
        },
        message_response_v6(message, responder, identifier) matches Some(r) ==> message.len() >= 8
            && r.responder == responder && {
            ||| message[0] == 129 && r.response_type == IcmpResponseType::EchoReply
            ||| message[0] == 3 && r.response_type == IcmpResponseType::TimeExceeded(message[1])
            ||| message[0] == 1 && r.response_type == IcmpResponseType::DestUnreachable(message[1])
            ||| message[0] == 2 && r.response_type == IcmpResponseType::PacketTooBig
        },
{
}

/// An ICMPv4 echo reply whose words, summed with end-around carry, do not come
/// to all ones is not believed, unless they are all zero.
pub proof fn law_damaged_reply_refused(message: Seq<u8>, responder: IpAddr, identifier: u16)
    requires
        message.len() >= 8,
        message[0] == 0,
        crate::wire::word_sum(message) % 65535 != 0,
    ensures
        message_response_v4(message, responder, identifier) is None,
{
    let s = crate::wire::word_sum(message);
    assert(s > 0);
    if (s - 1) % 65535 == 65534 {
        assert(s % 65535 == 0) by (nonlinear_arith)
            requires
                s > 0,
                (s - 1) % 65535 == 65534,
        ;
    }
}

/// The four bytes in which a router writes an entry of a label stack: twenty
/// bits of label, three of traffic class, one that marks the bottom, eight of
/// TTL.
pub open spec fn entry_bytes(entry: MplsLabel) -> Seq<u8> {
    seq![
        (entry.label / 4096) as u8,
        ((entry.label / 16) % 256) as u8,
        ((entry.label % 16) * 16 + entry.exp * 2 + if entry.bottom {
            1int
        } else {
            0
        }) as u8,
        entry.ttl,
    ]
}

/// The bytes in which a router writes a label stack, the top entry first.
pub open spec fn stack_bytes(entries: Seq<MplsLabel>) -> Seq<u8>
    decreases entries.len(),
{
    if entries.len() == 0 {
        Seq::empty()
    } else {
        entry_bytes(entries[0]) + stack_bytes(entries.skip(1))
    }
}

/// Whether entries can be a label stack, or the top of one: all in range, and
/// none but the last at the bottom.
pub open spec fn stackable(entries: Seq<MplsLabel>) -> bool {
    &&& forall|i: int|
        0 <= i < entries.len() ==> (#[trigger] entries[i]).label < 0x10_0000 && entries[i].exp < 8
    &&& forall|i: int| 0 <= i < entries.len() - 1 ==> !(#[trigger] entries[i]).bottom
}

/// An entry is read back from its bytes.
pub proof fn lemma_entry_read(entry: MplsLabel)
    requires
        entry.label < 0x10_0000,
        entry.exp < 8,
    ensures
        ({
            let b = entry_bytes(entry);
            MplsLabel::of_word(be32_spec(b[0], b[1], b[2], b[3])) == entry
        }),
{
    let b = entry_bytes(entry);
    let label: u32 = entry.label;
    let exp: u32 = entry.exp as u32;
    let bottom: u32 = if entry.bottom {
        1
    } else {
        0
    };
    let ttl: u32 = entry.ttl as u32;
    let word: u32 = be32_spec(b[0], b[1], b[2], b[3]);
    assert(label / 4096 < 256 && (label % 16) * 16 + exp * 2 + bottom < 256);
    assert(word == (label / 4096) * 0x100_0000 + ((label / 16) % 256) * 0x1_0000 + ((label % 16)
        * 16 + exp * 2 + bottom) * 0x100 + ttl);
    assert(word / 0x1000 == label && (word / 0x200) % 8 == exp && (word / 0x100) % 2 == bottom
        && word % 0x100 == ttl) by (bit_vector)
        requires
            word == (label / 4096) * 0x100_0000 + ((label / 16) % 256) * 0x1_0000 + ((label % 16)
                * 16 + exp * 2 + bottom) * 0x100 + ttl,
            label < 0x10_0000,
            exp < 8,
            bottom < 2,
            ttl < 256,
    ;
}

/// A label stack with its bottom entry is read back as it was written,
/// whatever follows it.
pub proof fn law_label_stack_read_back(entries: Seq<MplsLabel>, after: Seq<u8>)
    requires
        entries.len() > 0,
        stackable(entries),
        entries.last().bottom,
    ensures
        label_stack(stack_bytes(entries) + after) == entries,
    decreases entries.len(),
{
    lemma_entry_read(entries[0]);
    let rest = entries.skip(1);
    let data = stack_bytes(entries) + after;
    let head = entry_bytes(entries[0]);
    assert(data[0] == head[0] && data[1] == head[1] && data[2] == head[2] && data[3] == head[3]);
    assert(data.skip(4) =~= stack_bytes(rest) + after);
    if entries.len() == 1 {
        assert(entries =~= seq![entries[0]]);
    } else {
        assert(!entries[0].bottom);
        assert forall|i: int| 0 <= i < rest.len() implies (#[trigger] rest[i]).label < 0x10_0000
            && rest[i].exp < 8 by {
            assert(rest[i] == entries[i + 1]);
        }
        assert forall|i: int| 0 <= i < rest.len() - 1 implies !(#[trigger] rest[i]).bottom by {
            assert(rest[i] == entries[i + 1]);
        }
        law_label_stack_read_back(rest, after);
        assert(seq![entries[0]] + rest =~= entries);
    }
}

/// A label stack whose bottom entry was cut off is read as far as it goes.
pub proof fn law_cut_label_stack_read(entries: Seq<MplsLabel>, after: Seq<u8>)
    requires
        stackable(entries),
        entries.len() > 0 ==> !entries.last().bottom,
        after.len() < 4,
    ensures
        label_stack(stack_bytes(entries) + after) == entries,
    decreases entries.len(),
{
    let data = stack_bytes(entries) + after;
    if entries.len() == 0 {
        assert(data =~= after);
        assert(entries =~= Seq::empty());
    } else {
        lemma_entry_read(entries[0]);
        let rest = entries.skip(1);
        let head = entry_bytes(entries[0]);
        assert(data[0] == head[0] && data[1] == head[1] && data[2] == head[2] && data[3]
            == head[3]);
        assert(data.skip(4) =~= stack_bytes(rest) + after);
        assert forall|i: int| 0 <= i < rest.len() implies (#[trigger] rest[i]).label < 0x10_0000
            && rest[i].exp < 8 && !rest[i].bottom by {
            assert(rest[i] == entries[i + 1]);
        }
        law_cut_label_stack_read(rest, after);
        assert(seq![entries[0]] + rest =~= entries);
    }
}

/// A packet is as long as its header and what it carries.
pub proof fn lemma_packet_len(
    packet: Seq<u8>,
    src: Ipv4Addr,
    dst: Ipv4Addr,
    protocol: u8,
    ttl: u8,
    tos: u8,
    dont_fragment: bool,
    transport: Seq<u8>,
    host_order: bool,
)
    requires
        is_ipv4_packet(
            packet,
            src,
            dst,
            protocol,
            ttl,
            tos,
            dont_fragment,
            transport,
            host_order,
        ),
    ensures
        packet.len() == 20 + transport.len(),
        packet.skip(20) == transport,
{
    assert(packet.subrange(2, 4).len() == 2);
    assert(packet.subrange(6, 8).len() == 2);
    assert(packet.skip(20) =~= transport);
}

/// Received bytes are read as what they are: from IPv6 always the message,
/// from IPv4 the message or, from a raw socket, the packet around it, which
/// comes to the same. Nothing comes of no bytes.
pub proof fn law_socket_kinds_agree(
    data: &[u8],
    message: &[u8],
    responder: IpAddr,
    identifier: u16,
    whole: Option<ParsedResponse>,
    bare: Option<ParsedResponse>,
)
    requires
        call_ensures(parse_icmp_response, (data, responder, identifier, false), whole),
        call_ensures(parse_icmp_response, (message, responder, identifier, true), bare),
        (responder is V4) ==> data@.len() >= 20 && 5 <= data@[0] % 16 && data@.len() >= (data@[0]
            % 16) * 4 && message@ == data@.skip((data@[0] % 16) * 4),
        (responder is V6) ==> message@ == data@,
    ensures
        response_view(whole) == response_view(bare),
{
}

/// What is made of received bytes names their sender, and of what kind they
/// are, by the type of the message; an echo reply has no labels, no MTU and
/// no quote, an error tells where its quoted probe was going and the TTL it
/// arrived with, and is no mark of a path-MTU probe.
pub proof fn law_answer_tells_its_kind(
    message: &[u8],
    responder: IpAddr,
    identifier: u16,
    r: Option<ParsedResponse>,
)
    requires
        call_ensures(parse_icmp_response, (message, responder, identifier, true), r),
    ensures
        r matches Some(a) ==> {
            &&& a.responder == responder
            &&& (a.response_type is EchoReply) <==> message@[0] == (if responder is V6 {
                129u8
            } else {
                0u8
            })
            &&& (a.response_type is EchoReply) ==> a.mpls_labels is None && a.mtu is None
                && a.quoted_ttl is None && a.src_port is None && a.original_dest == Some(responder)
            &&& !(a.response_type is EchoReply) ==> !a.is_pmtud && a.quoted_ttl == Some(
                if responder is V6 {
                    message@[15]
                } else {
                    message@[16]
                },
            )
            &&& responder is V4 ==> (a.mtu is Some <==> message@[0] == 3 && message@[1] == 4
                && message@[6] * 256 + message@[7] > 0)
            &&& responder is V4 ==> (a.mtu matches Some(m) ==> m == message@[6] * 256
                + message@[7])
            &&& responder is V6 ==> (a.mtu is Some <==> message@[0] == 2 && message@[4] == 0
                && message@[5] == 0 && message@[6] * 256 + message@[7] > 0)
            &&& responder is V6 ==> (a.mtu matches Some(m) ==> m == message@[6] * 256
                + message@[7])
            &&& message@[0] == 11 && responder is V4 ==> a.response_type
                == IcmpResponseType::TimeExceeded(message@[1])
            &&& message@[0] == 3 && responder is V4 ==> a.response_type
                == IcmpResponseType::DestUnreachable(message@[1])
            &&& message@[0] == 3 && responder is V6 ==> a.response_type
                == IcmpResponseType::TimeExceeded(message@[1])
            &&& message@[0] == 1 && responder is V6 ==> a.response_type
                == IcmpResponseType::DestUnreachable(message@[1])
            &&& message@[0] == 2 && responder is V6 ==> (a.response_type is PacketTooBig)
        },
        message@.len() < 8 ==> r is None,
{
    if let Some(a) = r {
        assert(response_view(r) == Some(a@));
        law_kinds_of_answers(message@, responder, identifier);
        law_reported_mtu_v4(message@, responder, identifier, message@[6] * 256 + message@[7]);
        law_reported_mtu_v6(
            message@,
            responder,
            identifier,
            message@[4] * 0x100_0000 + message@[5] * 0x1_0000 + message@[6] * 0x100 + message@[7],
        );
        if message@.len() >= 36 {
            assert(message@.skip(8)[8] == message@[16]);
            assert(message@.skip(8)[7] == message@[15]);
        }
        assert(a@.mpls_labels is None <==> a.mpls_labels is None);
    }
}

/// The labels of an answer are those in the extensions of its message: behind
/// its header of eight bytes, the sixth of which gives the length of what is
/// quoted.
pub proof fn law_labels_from_the_extensions(
    message: &[u8],
    payload: &[u8],
    responder: IpAddr,
    identifier: u16,
    r: Option<ParsedResponse>,
    labels: Option<Vec<MplsLabel>>,
)
    requires
        call_ensures(parse_icmp_response, (message, responder, identifier, true), r),
        call_ensures(parse_icmp_extensions_with_length, (payload, message@[5]), labels),
        message@.len() >= 8,
        payload@ == message@.skip(8),
        message@[0] == 11 || message@[0] == 3,
    ensures
        r matches Some(a) ==> labels_view(a.mpls_labels) == labels_view(labels),
{
    if let Some(a) = r {
        assert(response_view(r) == Some(a@));
    }
}

/// However a message comes in, bare or in its packet, it is read the same
/// way.
pub proof fn law_entrances_agree(
    message: &[u8],
    responder: IpAddr,
    identifier: u16,
    any: Option<ParsedResponse>,
    raw: Option<ParsedResponse>,
    bare_v4: Option<ParsedResponse>,
    bare_v6: Option<ParsedResponse>,
    packet_v4: Option<ParsedResponse>,
)
    requires
        call_ensures(parse_icmp_response, (message, responder, identifier, true), any),
        call_ensures(parse_icmp_response, (message, responder, identifier, false), raw),
        call_ensures(
            crate::probe::correlate::parse_icmp_response_v4_dgram,
            (message, responder, identifier),
            bare_v4,
        ),
        call_ensures(
            crate::probe::correlate::parse_icmp_response_v6_dgram,
            (message, responder, identifier),
            bare_v6,
        ),
        call_ensures(
            crate::probe::correlate::parse_icmp_response_v4,
            (message, responder, identifier),
            packet_v4,
        ),
    ensures
        (responder is V4) ==> response_view(any) == response_view(bare_v4),
        (responder is V6) ==> response_view(any) == response_view(bare_v6),
        (responder is V6) ==> response_view(raw) == response_view(bare_v6),
        (responder is V4) ==> response_view(raw) == response_view(packet_v4),
{
}

/// A quoted packet names its TTL, where it went and, of UDP and TCP, the port
/// it came from; no other protocol is ours.
pub proof fn law_quote_tells_of_the_probe(
    message: &[u8],
    transport: &[u8],
    protocol: u8,
    ipv6: bool,
    identifier: u16,
    quote: Option<crate::probe::quoted::Quote>,
    quote6: Option<crate::probe::quoted::Quote>,
    found: Option<(ProbeId, Option<u16>)>,
)
    requires
        call_ensures(crate::probe::quoted::read_quote_v4, (message, identifier), quote),
        call_ensures(crate::probe::quoted::read_quote_v6, (message, identifier), quote6),
        call_ensures(
            crate::probe::quoted::identify_quoted,
            (transport, protocol, ipv6, identifier),
            found,
        ),
    ensures
        quote matches Some(q) ==> q.ttl == message@[16] && (q.dest matches IpAddr::V4(a) && a.bits
            == message@[24] * 16777216 + message@[25] * 65536 + message@[26] * 256 + message@[27]),
        quote6 matches Some(q) ==> q.ttl == message@[15] && (q.dest is V6),
        message@.len() < 36 ==> quote is None,
        message@.len() < 56 ==> quote6 is None,
        found is Some ==> protocol == 6 || protocol == 17 || protocol == (if ipv6 {
            58u8
        } else {
            1u8
        }),
        (protocol == 6 || protocol == 17) ==> (found matches Some(f) ==> (f.1 matches Some(port)
            && port == transport@[0] * 256 + transport@[1])),
        (protocol == 1 || protocol == 58) ==> (found matches Some(f) ==> f.1 is None && (
        transport@[0] == (if ipv6 {
            128u8
        } else {
            8u8
        }))),
{
}

} // verus!
