//! What an error message says of the packet it quotes.

use crate::addr::{v4_bits, v6_bits, IpAddr, Ipv4Addr, Ipv6Addr};
use crate::probe::icmp::PMTUD_MARKER;
use crate::probe::packet::{ipv4_destination, ipv4_header_length, ipv4_protocol, ipv4_ttl};
use crate::probe::tcp::{extract_probe_id_from_tcp, tcp_probe_id};
use crate::probe::udp::{extract_probe_id_from_udp_payload, udp_probe_id};
use crate::state::{MplsLabel, ProbeId};
use crate::wire::{
    be16, be16_spec, be32_spec, fold16, lemma_stands_for_fold, sum_words, word_sum,
};
use vstd::prelude::*;
use vstd::slice::slice_subrange;

verus! {

/// Extension structure version (RFC 4884).
pub const EXTENSION_VERSION: u8 = 2;

/// Extension object class of an MPLS label stack (RFC 4950).
pub const MPLS_LABEL_STACK_CLASS: u8 = 1;

/// Extension object type of an MPLS label stack (RFC 4950).
pub const MPLS_LABEL_STACK_TYPE: u8 = 1;

/// Bytes of the quoted datagram in front of the extensions when the message
/// does not say how many there are.
pub const MIN_ORIGINAL_DATAGRAM: usize = 128;

/// Bytes of an IPv6 header without extension headers.
pub const IPV6_HEADER_LEN: usize = 40;

/// IPv6 next-header number of hop-by-hop options.
pub const IPV6_NH_HOP_BY_HOP: u8 = 0;

/// IPv6 next-header number of a routing header.
pub const IPV6_NH_ROUTING: u8 = 43;

/// IPv6 next-header number of a fragment header.
pub const IPV6_NH_FRAGMENT: u8 = 44;

/// IPv6 next-header number of an encapsulating security payload.
pub const IPV6_NH_ESP: u8 = 50;

/// IPv6 next-header number of an authentication header.
pub const IPV6_NH_AUTH: u8 = 51;

/// IPv6 next-header number of ICMPv6.
pub const IPV6_NH_V6_CONTROL: u8 = 58;

/// IPv6 next-header number that says that nothing follows.
pub const IPV6_NH_NO_NEXT: u8 = 59;

/// IPv6 next-header number of destination options.
pub const IPV6_NH_DEST_OPTS: u8 = 60;

/// IPv4 protocol number of ICMP.
pub const PROTO_V4_CONTROL: u8 = 1;

/// Protocol number of TCP.
pub const PROTO_TCP: u8 = 6;

/// Protocol number of UDP.
pub const PROTO_UDP: u8 = 17;

/// An optional vector by its contents.
pub open spec fn labels_view(labels: Option<Vec<MplsLabel>>) -> Option<Seq<MplsLabel>> {
    match labels {
        Some(v) => Some(v@),
        None => None,
    }
}

/// The label stack in `data`: whole four-byte entries up to the bottom one.
pub open spec fn label_stack(data: Seq<u8>) -> Seq<MplsLabel>
    decreases data.len(),
{
    if data.len() < 4 {
        Seq::empty()
    } else {
        let label = MplsLabel::of_word(be32_spec(data[0], data[1], data[2], data[3]));
        if label.bottom {
            seq![label]
        } else {
            seq![label] + label_stack(data.skip(4))
        }
    }
}

/// The first non-empty label stack among the extension objects in `data`. An
/// object whose length makes no sense ends the search.
pub open spec fn first_label_stack(data: Seq<u8>) -> Option<Seq<MplsLabel>>
    decreases data.len(),
{
    if data.len() < 4 {
        None
    } else {
        let length = be16_spec(data[0], data[1]);
        if length < 4 || length > data.len() {
            None
        } else if data[2] == MPLS_LABEL_STACK_CLASS && data[3] == MPLS_LABEL_STACK_TYPE && length
            >= 8 {
            Some(label_stack(data.subrange(4, length as int)))
        } else {
            first_label_stack(data.skip(length as int))
        }
    }
}

/// Where the extensions of a message start behind its eight-byte header.
pub open spec fn extension_start_spec(length_field: u8) -> int {
    if length_field > 0 {
        length_field * 4
    } else {
        MIN_ORIGINAL_DATAGRAM as int
    }
}

/// The MPLS labels that the extensions of an error message carry. `payload`
/// is the message without its eight-byte header, `length_field` the length of
/// the quoted datagram in 32-bit words, zero if not given.
pub open spec fn extension_labels(payload: Seq<u8>, length_field: u8) -> Option<Seq<MplsLabel>> {
    let start = extension_start_spec(length_field);
    if payload.len() < start + 4 || payload[start] / 16 != EXTENSION_VERSION {
        None
    } else {
        first_label_stack(payload.skip(start + 4))
    }
}

/// Where the extensions of a message start behind its eight-byte header.
pub fn extension_start(length_field: u8) -> (r: usize)
    ensures
        r == extension_start_spec(length_field),
        4 <= r <= 1020,
{
    if length_field > 0 {
        (length_field as usize) * 4
    } else {
        MIN_ORIGINAL_DATAGRAM
    }
}

/// Reads label entries up to the bottom of the stack.
pub fn read_label_stack(data: &[u8]) -> (r: Vec<MplsLabel>)
    ensures
        r@ == label_stack(data@),
{
    let mut labels: Vec<MplsLabel> = Vec::new();
    let mut i: usize = 0;
    proof {
        assert(data@.skip(0) =~= data@);
        assert(labels@ + label_stack(data@) =~= label_stack(data@));
    }
    while data.len() - i >= 4
        invariant
            i <= data.len(),
            labels@ + label_stack(data@.skip(i as int)) == label_stack(data@),
        decreases data.len() - i,
    {
        let bytes: [u8; 4] = [data[i], data[i + 1], data[i + 2], data[i + 3]];
        let label: MplsLabel = MplsLabel::from_bytes(&bytes);
        let ghost before = labels@;
        labels.push(label);
        proof {
            let left = data@.skip(i as int);
            assert(left.skip(4) =~= data@.skip(i + 4));
            if label.bottom {
                assert(labels@ =~= before + label_stack(left));
            } else {
                assert(labels@ + label_stack(left.skip(4)) =~= before + label_stack(left));
            }
        }
        if label.bottom {
            return labels;
        }
        i = i + 4;
    }
    proof {
        assert(label_stack(data@.skip(i as int)) =~= Seq::empty());
        assert(labels@ =~= labels@ + label_stack(data@.skip(i as int)));
    }
    labels
}

/// Looks through extension objects for a label stack.
pub fn read_extension_objects(data: &[u8]) -> (r: Option<Vec<MplsLabel>>)
    ensures
        labels_view(r) == first_label_stack(data@),
{
    let mut offset: usize = 0;
    proof {
        assert(data@.skip(0) =~= data@);
    }
    while data.len() - offset >= 4
        invariant
            offset <= data.len(),
            first_label_stack(data@.skip(offset as int)) == first_label_stack(data@),
        decreases data.len() - offset,
    {
        let length: usize = be16(data[offset], data[offset + 1]) as usize;
        let class: u8 = data[offset + 2];
        let kind: u8 = data[offset + 3];
        let ghost left = data@.skip(offset as int);
        assert(length == be16_spec(left[0], left[1]));
        if length < 4 || length > data.len() - offset {
            return None;
        }
        if class == MPLS_LABEL_STACK_CLASS && kind == MPLS_LABEL_STACK_TYPE {
            let labels: Vec<MplsLabel> = read_label_stack(
                slice_subrange(data, offset + 4, offset + length),
            );
            proof {
                assert(data@.subrange(offset + 4, offset + length) =~= left.subrange(
                    4,
                    length as int,
                ));
            }
            if labels.len() > 0 {
                return Some(labels);
            }
        }
        assert(left.skip(length as int) =~= data@.skip(offset + length));
        offset = offset + length;
    }
    None
}

/// Whether a message can pass for intact: its words fold to all ones (or are
/// all zero).
pub open spec fn message_checksum_ok(data: Seq<u8>) -> bool {
    data.len() >= 4 && (fold16(word_sum(data)) == 0xFFFF || fold16(word_sum(data)) == 0)
}

/// Checks the Internet checksum of a whole message.
pub fn check_message(data: &[u8]) -> (r: bool)
    ensures
        r == message_checksum_ok(data@),
{
    if data.len() < 4 {
        return false;
    }
    let sum: u16 = sum_words(0, data, Ghost(0));
    proof {
        lemma_stands_for_fold(sum, word_sum(data@));
    }
    sum == 0xFFFF || sum == 0
}

/// Whether an IPv6 extension header with this number can be stepped over.
pub open spec fn skippable(next_header: u8) -> bool {
    next_header == IPV6_NH_HOP_BY_HOP || next_header == IPV6_NH_ROUTING || next_header
        == IPV6_NH_DEST_OPTS
}

/// Whether a header with this number ends the walk without a transport
/// header that could be read: a fragment, a protected packet, or nothing.
pub open spec fn unreadable(next_header: u8) -> bool {
    next_header == IPV6_NH_FRAGMENT || next_header == IPV6_NH_NO_NEXT || next_header == IPV6_NH_ESP
        || next_header == IPV6_NH_AUTH
}

/// Steps over extension headers from `offset` on: where the transport header
/// starts and its number. Nothing if the headers run past the data, the
/// packet is a fragment or protected (ESP, AH), or nothing follows.
pub open spec fn walk_headers(data: Seq<u8>, next_header: u8, offset: int) -> Option<(int, u8)>
    decreases data.len() - offset,
{
    if skippable(next_header) {
        if data.len() < offset + 2 {
            None
        } else {
            let length = (data[offset + 1] + 1) * 8;
            if offset + length > data.len() {
                None
            } else {
                walk_headers(data, data[offset], offset + length)
            }
        }
    } else if unreadable(next_header) {
        None
    } else {
        Some((offset, next_header))
    }
}

/// Where the transport header of an IPv6 packet starts, and its number.
pub open spec fn transport_of_v6(data: Seq<u8>) -> Option<(int, u8)> {
    if data.len() < IPV6_HEADER_LEN {
        None
    } else {
        walk_headers(data, data[6], IPV6_HEADER_LEN as int)
    }
}

/// Walks the extension headers of a quoted IPv6 packet: where the transport
/// header starts, and its number. Nothing if the headers are malformed, the
/// packet is a fragment, or it is protected (ESP, AH).
pub fn skip_ipv6_ext_headers_quoted(ipv6_data: &[u8]) -> (r: Option<(usize, u8)>)
    ensures
        match transport_of_v6(ipv6_data@) {
            Some((offset, next_header)) => (r matches Some(found) && found.0 == offset && found.1
                == next_header) && offset <= ipv6_data@.len(),
            None => r is None,
        },
{
    if ipv6_data.len() < IPV6_HEADER_LEN {
        return None;
    }
    let mut next_header: u8 = ipv6_data[6];
    let mut offset: usize = IPV6_HEADER_LEN;
    while next_header == IPV6_NH_HOP_BY_HOP || next_header == IPV6_NH_ROUTING || next_header
        == IPV6_NH_DEST_OPTS
        invariant
            offset <= ipv6_data@.len(),
            ipv6_data@.len() >= IPV6_HEADER_LEN,
            walk_headers(ipv6_data@, next_header, offset as int) == transport_of_v6(ipv6_data@),
        decreases ipv6_data@.len() - offset,
    {
        if ipv6_data.len() - offset < 2 {
            return None;
        }
        next_header = ipv6_data[offset];
        let length: usize = (ipv6_data[offset + 1] as usize + 1) * 8;
        if length > ipv6_data.len() - offset {
            return None;
        }
        offset = offset + length;
    }
    if next_header == IPV6_NH_FRAGMENT || next_header == IPV6_NH_NO_NEXT || next_header
        == IPV6_NH_ESP || next_header == IPV6_NH_AUTH {
        return None;
    }
    Some((offset, next_header))
}

/// Where the ICMPv6 message of an IPv6 packet starts. Nothing if something
/// else is carried.
pub fn skip_ipv6_extension_headers(data: &[u8]) -> (r: Option<usize>)
    ensures
        match transport_of_v6(data@) {
            Some((offset, next_header)) => if next_header == IPV6_NH_V6_CONTROL {
                r is Some && r->0 == offset && offset <= data@.len()
            } else {
                r is None
            },
            None => r is None,
        },
{
    match skip_ipv6_ext_headers_quoted(data) {
        Some((offset, next_header)) => if next_header == IPV6_NH_V6_CONTROL {
            Some(offset)
        } else {
            None
        },
        None => None,
    }
}

/// The identity that an echo payload repeats: `(identifier, sequence)` if the
/// identifier is ours.
pub open spec fn payload_identity(payload: Seq<u8>, our_identifier: u16) -> Option<(u16, u16)> {
    if payload.len() >= 4 && be16_spec(payload[0], payload[1]) == our_identifier {
        Some((our_identifier, be16_spec(payload[2], payload[3])))
    } else {
        None
    }
}

/// Reads the identity that an echo payload repeats.
pub fn extract_id_from_payload(payload: &[u8], our_identifier: u16) -> (r: Option<(u16, u16)>)
    ensures
        r == payload_identity(payload@, our_identifier),
{
    if payload.len() < 4 {
        return None;
    }
    let payload_id: u16 = be16(payload[0], payload[1]);
    let payload_seq: u16 = be16(payload[2], payload[3]);
    if payload_id == our_identifier {
        Some((payload_id, payload_seq))
    } else {
        None
    }
}

/// Whether an echo payload carries the path-MTU marker.
pub open spec fn marked_payload(payload: Seq<u8>) -> bool {
    payload.len() > 8 && payload[8] == PMTUD_MARKER
}

/// Whether an echo payload carries the path-MTU marker.
pub fn is_pmtud_payload(payload: &[u8]) -> (r: bool)
    ensures
        r == marked_payload(payload@),
{
    payload.len() > 8 && payload[8] == PMTUD_MARKER
}

/// The probe that an echo message of ours belongs to: by the identifier in
/// its header or, where that was rewritten, by the one in its payload.
pub open spec fn echo_identity(message: Seq<u8>, our_identifier: u16) -> Option<ProbeId> {
    if message.len() < 8 {
        None
    } else if be16_spec(message[4], message[5]) == our_identifier {
        Some(ProbeId::of_sequence(be16_spec(message[6], message[7])))
    } else {
        match payload_identity(message.skip(8), our_identifier) {
            Some((_, sequence)) => Some(ProbeId::of_sequence(sequence)),
            None => None,
        }
    }
}

/// Finds the probe that an echo message belongs to.
pub fn identify_echo(message: &[u8], our_identifier: u16) -> (r: Option<ProbeId>)
    ensures
        r == echo_identity(message@, our_identifier),
{
    if message.len() < 8 {
        return None;
    }
    let identifier: u16 = be16(message[4], message[5]);
    if identifier == our_identifier {
        return Some(ProbeId::from_sequence(be16(message[6], message[7])));
    }
    let payload: &[u8] = slice_subrange(message, 8, message.len());
    assert(payload@ =~= message@.skip(8));
    match extract_id_from_payload(payload, our_identifier) {
        Some((_, sequence)) => Some(ProbeId::from_sequence(sequence)),
        None => None,
    }
}

/// The probe that a quoted transport message belongs to, and its source port
/// where the protocol has ports.
pub open spec fn quoted_probe(
    transport: Seq<u8>,
    protocol: u8,
    ipv6: bool,
    our_identifier: u16,
) -> Option<(ProbeId, Option<u16>)> {
    if protocol == (if ipv6 {
        IPV6_NH_V6_CONTROL
    } else {
        PROTO_V4_CONTROL
    }) {
        if transport.len() >= 8 && transport[0] == (if ipv6 {
            128u8
        } else {
            8u8
        }) {
            match echo_identity(transport, our_identifier) {
                Some(id) => Some((id, None)),
                None => None,
            }
        } else {
            None
        }
    } else if protocol == PROTO_TCP {
        match tcp_probe_id(transport) {
            Some(id) => Some((id, Some(be16_spec(transport[0], transport[1])))),
            None => None,
        }
    } else if protocol == PROTO_UDP {
        if transport.len() >= 14 {
            match udp_probe_id(transport.skip(8)) {
                Some(id) => Some((id, Some(be16_spec(transport[0], transport[1])))),
                None => None,
            }
        } else {
            None
        }
    } else {
        None
    }
}

/// Finds the probe that a quoted transport message belongs to.
pub fn identify_quoted(
    transport: &[u8],
    protocol: u8,
    ipv6: bool,
    our_identifier: u16,
) -> (r: Option<(ProbeId, Option<u16>)>)
    ensures
        r == quoted_probe(transport@, protocol, ipv6, our_identifier),
{
    let control: u8 = if ipv6 {
        IPV6_NH_V6_CONTROL
    } else {
        PROTO_V4_CONTROL
    };
    let request: u8 = if ipv6 {
        128
    } else {
        8
    };
    if protocol == control {
        if transport.len() < 8 || transport[0] != request {
            return None;
        }
        match identify_echo(transport, our_identifier) {
            Some(id) => Some((id, None)),
            None => None,
        }
    } else if protocol == PROTO_TCP {
        match extract_probe_id_from_tcp(transport) {
            Some(id) => Some((id, Some(be16(transport[0], transport[1])))),
            None => None,
        }
    } else if protocol == PROTO_UDP {
        if transport.len() < 14 {
            return None;
        }
        let payload: &[u8] = slice_subrange(transport, 8, transport.len());
        assert(payload@ =~= transport@.skip(8));
        match extract_probe_id_from_udp_payload(payload) {
            Some(id) => Some((id, Some(be16(transport[0], transport[1])))),
            None => None,
        }
    } else {
        None
    }
}

/// What an error message tells of the probe that it quotes.
#[derive(Clone, Copy, Debug, PartialEq, Eq, Structural)]
pub struct Quote {
    /// The quoted probe.
    pub probe_id: ProbeId,
    /// Its source port, for UDP and TCP.
    pub src_port: Option<u16>,
    /// TTL or hop limit in the quoted header.
    pub ttl: u8,
    /// Destination in the quoted header.
    pub dest: IpAddr,
}

/// The quote in an ICMPv4 error message.
pub open spec fn quote_v4(message: Seq<u8>, our_identifier: u16) -> Option<Quote> {
    let packet = message.skip(8);
    let header_len = (packet[0] % 16) * 4;
    if message.len() < 36 || packet.len() < header_len + 8 {
        None
    } else {
        match quoted_probe(packet.skip(header_len), packet[9], false, our_identifier) {
            Some((probe_id, src_port)) => Some(
                Quote {
                    probe_id,
                    src_port,
                    ttl: packet[8],
                    dest: IpAddr::V4(
                        Ipv4Addr { bits: v4_bits(packet[16], packet[17], packet[18], packet[19]) },
                    ),
                },
            ),
            None => None,
        }
    }
}

/// Reads the quote in an ICMPv4 error message.
pub fn read_quote_v4(message: &[u8], our_identifier: u16) -> (r: Option<Quote>)
    ensures
        r == quote_v4(message@, our_identifier),
{
    if message.len() < 36 {
        return None;
    }
    let packet: &[u8] = slice_subrange(message, 8, message.len());
    assert(packet@ =~= message@.skip(8));
    let header_len: usize = match ipv4_header_length(packet) {
        Some(words) => words as usize * 4,
        None => return None,
    };
    let protocol: u8 = match ipv4_protocol(packet) {
        Some(p) => p,
        None => return None,
    };
    let ttl: u8 = match ipv4_ttl(packet) {
        Some(t) => t,
        None => return None,
    };
    let dest: [u8; 4] = match ipv4_destination(packet) {
        Some(d) => d,
        None => return None,
    };
    if packet.len() < header_len + 8 {
        return None;
    }
    let transport: &[u8] = slice_subrange(packet, header_len, packet.len());
    proof {
        assert(transport@ =~= packet@.skip(header_len as int));
        assert(dest@[0] == packet@[16] && dest@[1] == packet@[17] && dest@[2] == packet@[18]
            && dest@[3] == packet@[19]);
    }
    match identify_quoted(transport, protocol, false, our_identifier) {
        Some((probe_id, src_port)) => Some(
            Quote {
                probe_id,
                src_port,
                ttl,
                dest: IpAddr::V4(Ipv4Addr::new(dest[0], dest[1], dest[2], dest[3])),
            },
        ),
        None => None,
    }
}

/// Segment `i` of an address that starts at byte `at`.
pub open spec fn segment_at(data: Seq<u8>, at: int, i: int) -> u16 {
    be16_spec(data[at + 2 * i], data[at + 2 * i + 1])
}

/// The IPv6 address that starts at byte `at`.
pub open spec fn v6_at(data: Seq<u8>, at: int) -> Ipv6Addr {
    Ipv6Addr {
        bits: v6_bits(
            seq![
                segment_at(data, at, 0),
                segment_at(data, at, 1),
                segment_at(data, at, 2),
                segment_at(data, at, 3),
                segment_at(data, at, 4),
                segment_at(data, at, 5),
                segment_at(data, at, 6),
                segment_at(data, at, 7),
            ],
        ),
    }
}

/// The quote in an ICMPv6 error message.
pub open spec fn quote_v6(message: Seq<u8>, our_identifier: u16) -> Option<Quote> {
    let packet = message.skip(8);
    if message.len() < 56 {
        None
    } else {
        match transport_of_v6(packet) {
            Some((offset, protocol)) => match quoted_probe(
                packet.skip(offset),
                protocol,
                true,
                our_identifier,
            ) {
                Some((probe_id, src_port)) => Some(
                    Quote { probe_id, src_port, ttl: packet[7], dest: IpAddr::V6(v6_at(packet, 24)) },
                ),
                None => None,
            },
            None => None,
        }
    }
}

/// Reads the quote in an ICMPv6 error message. Extension headers of the
/// quoted packet are stepped over to find its transport header; a packet
/// where that fails is no quote of ours.
pub fn read_quote_v6(message: &[u8], our_identifier: u16) -> (r: Option<Quote>)
    ensures
        r == quote_v6(message@, our_identifier),
{
    if message.len() < 56 {
        return None;
    }
    let packet: &[u8] = slice_subrange(message, 8, message.len());
    assert(packet@ =~= message@.skip(8));
    let ttl: u8 = packet[7];
    let dest: Ipv6Addr = Ipv6Addr::new(
        be16(packet[24], packet[25]),
        be16(packet[26], packet[27]),
        be16(packet[28], packet[29]),
        be16(packet[30], packet[31]),
        be16(packet[32], packet[33]),
        be16(packet[34], packet[35]),
        be16(packet[36], packet[37]),
        be16(packet[38], packet[39]),
    );
    let (offset, protocol): (usize, u8) = match skip_ipv6_ext_headers_quoted(packet) {
        Some(found) => found,
        None => return None,
    };
    let transport: &[u8] = slice_subrange(packet, offset, packet.len());
    assert(transport@ =~= packet@.skip(offset as int));
    match identify_quoted(transport, protocol, true, our_identifier) {
        Some((probe_id, src_port)) => Some(
            Quote { probe_id, src_port, ttl, dest: IpAddr::V6(dest) },
        ),
        None => None,
    }
}

} // verus!
