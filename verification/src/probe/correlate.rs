//! Matching ICMP responses to the probes that caused them.

use crate::addr::IpAddr;
use crate::probe::packet::{icmp_code, icmp_type, ipv4_header_length};
use crate::probe::quoted::{
    check_message, echo_identity, extension_labels, extension_start, identify_echo,
    is_pmtud_payload, labels_view, marked_payload, message_checksum_ok, quote_v4, quote_v6,
    read_extension_objects, read_quote_v4, read_quote_v6, skip_ipv6_extension_headers,
    transport_of_v6, Quote, EXTENSION_VERSION, IPV6_NH_V6_CONTROL,
};
use crate::state::{IcmpResponseType, MplsLabel, ProbeId};
use crate::wire::{be16, be16_spec, be32};
use vstd::prelude::*;
use vstd::slice::slice_subrange;

verus! {

/// ICMPv6 type of an Echo Reply.
pub const ICMPV6_ECHO_REPLY: u8 = 129;

/// ICMPv6 type of Packet Too Big.
pub const ICMPV6_PACKET_TOO_BIG: u8 = 2;

/// ICMPv6 type of Time Exceeded.
pub const ICMPV6_TIME_EXCEEDED: u8 = 3;

/// ICMPv6 type of Destination Unreachable.
pub const ICMPV6_DEST_UNREACHABLE: u8 = 1;

/// ICMPv4 type of an Echo Reply.
pub const ICMPV4_ECHO_REPLY: u8 = 0;

/// ICMPv4 type of Destination Unreachable.
pub const ICMPV4_DEST_UNREACHABLE: u8 = 3;

/// ICMPv4 type of Time Exceeded.
pub const ICMPV4_TIME_EXCEEDED: u8 = 11;

/// A response that answers one of our probes.
#[derive(Debug, Clone)]
pub struct ParsedResponse {
    /// Who sent the response.
    pub responder: IpAddr,
    /// The probe that it answers.
    pub probe_id: ProbeId,
    /// What kind of message it is.
    pub response_type: IcmpResponseType,
    /// Whether the probe was a path-MTU probe (seen by the payload marker).
    pub is_pmtud: bool,
    /// MPLS labels from ICMP extensions (RFC 4950), if present.
    pub mpls_labels: Option<Vec<MplsLabel>>,
    /// Source port of the quoted UDP or TCP probe; tells the flow.
    pub src_port: Option<u16>,
    /// MTU from Fragmentation Needed or Packet Too Big.
    pub mtu: Option<u16>,
    /// TTL in the quoted header; above 1 in a Time Exceeded it suggests that
    /// someone changed it on the way.
    pub quoted_ttl: Option<u8>,
    /// Destination in the quoted header, or the responder of an Echo Reply.
    pub original_dest: Option<IpAddr>,
}

/// What a [`ParsedResponse`] says, with the labels as a sequence.
pub struct ResponseView {
    pub responder: IpAddr,
    pub probe_id: ProbeId,
    pub response_type: IcmpResponseType,
    pub is_pmtud: bool,
    pub mpls_labels: Option<Seq<MplsLabel>>,
    pub src_port: Option<u16>,
    pub mtu: Option<u16>,
    pub quoted_ttl: Option<u8>,
    pub original_dest: Option<IpAddr>,
}

impl View for ParsedResponse {
    type V = ResponseView;

    open spec fn view(&self) -> ResponseView {
        ResponseView {
            responder: self.responder,
            probe_id: self.probe_id,
            response_type: self.response_type,
            is_pmtud: self.is_pmtud,
            mpls_labels: labels_view(self.mpls_labels),
            src_port: self.src_port,
            mtu: self.mtu,
            quoted_ttl: self.quoted_ttl,
            original_dest: self.original_dest,
        }
    }
}

/// An optional response by its view.
pub open spec fn response_view(r: Option<ParsedResponse>) -> Option<ResponseView> {
    match r {
        Some(response) => Some(response@),
        None => None,
    }
}

/// Parses the extensions of an error message (RFC 4884) and returns its MPLS
/// label stack (RFC 4950) if there is one. `payload` is the message behind
/// its eight-byte header; `length_field` is the message's length field, which
/// gives the length of the quoted datagram in 32-bit words when non-zero.
pub fn parse_icmp_extensions_with_length(payload: &[u8], length_field: u8) -> (r: Option<
    Vec<MplsLabel>,
>)
    ensures
        labels_view(r) == extension_labels(payload@, length_field),
{
    let start: usize = extension_start(length_field);
    if payload.len() < start + 4 {
        return None;
    }
    if payload[start] / 16 != EXTENSION_VERSION {
        return None;
    }
    let objects: &[u8] = slice_subrange(payload, start + 4, payload.len());
    assert(objects@ =~= payload@.skip(start + 4));
    read_extension_objects(objects)
}

/// Whether the checksum of an ICMP message is valid (RFC 1071).
pub fn validate_icmp_checksum(data: &[u8]) -> (r: bool)
    ensures
        r == message_checksum_ok(data@),
{
    check_message(data)
}

/// The response that an Echo Reply is: the responder is the target.
pub open spec fn echo_response(
    message: Seq<u8>,
    responder: IpAddr,
    our_identifier: u16,
) -> Option<ResponseView> {
    match echo_identity(message, our_identifier) {
        Some(probe_id) => Some(
            ResponseView {
                responder,
                probe_id,
                response_type: IcmpResponseType::EchoReply,
                is_pmtud: marked_payload(message.skip(8)),
                mpls_labels: None,
                src_port: None,
                mtu: None,
                quoted_ttl: None,
                original_dest: Some(responder),
            },
        ),
        None => None,
    }
}

/// Parses an Echo Reply of ours.
pub fn parse_echo_reply(message: &[u8], responder: IpAddr, our_identifier: u16) -> (r: Option<
    ParsedResponse,
>)
    ensures
        response_view(r) == echo_response(message@, responder, our_identifier),
{
    match identify_echo(message, our_identifier) {
        Some(probe_id) => {
            let payload: &[u8] = slice_subrange(message, 8, message.len());
            assert(payload@ =~= message@.skip(8));
            Some(
                ParsedResponse {
                    responder,
                    probe_id,
                    response_type: IcmpResponseType::EchoReply,
                    is_pmtud: is_pmtud_payload(payload),
                    mpls_labels: None,
                    src_port: None,
                    mtu: None,
                    quoted_ttl: None,
                    original_dest: Some(responder),
                },
            )
        },
        None => None,
    }
}

/// The response that an error message with this quote is.
pub open spec fn error_response(
    message: Seq<u8>,
    quote: Option<Quote>,
    responder: IpAddr,
    response_type: IcmpResponseType,
    mtu: Option<u16>,
) -> Option<ResponseView> {
    match quote {
        Some(q) => Some(
            ResponseView {
                responder,
                probe_id: q.probe_id,
                response_type,
                is_pmtud: false,
                mpls_labels: extension_labels(message.skip(8), message[5]),
                src_port: q.src_port,
                mtu,
                quoted_ttl: Some(q.ttl),
                original_dest: Some(q.dest),
            },
        ),
        None => None,
    }
}

/// Turns the quote of an error message into a response.
fn respond_to_quote(
    message: &[u8],
    quote: Option<Quote>,
    responder: IpAddr,
    response_type: IcmpResponseType,
    mtu: Option<u16>,
) -> (r: Option<ParsedResponse>)
    requires
        message@.len() >= 8,
    ensures
        response_view(r) == error_response(message@, quote, responder, response_type, mtu),
{
    match quote {
        Some(q) => {
            let payload: &[u8] = slice_subrange(message, 8, message.len());
            assert(payload@ =~= message@.skip(8));
            Some(
                ParsedResponse {
                    responder,
                    probe_id: q.probe_id,
                    response_type,
                    is_pmtud: false,
                    mpls_labels: parse_icmp_extensions_with_length(payload, message[5]),
                    src_port: q.src_port,
                    mtu,
                    quoted_ttl: Some(q.ttl),
                    original_dest: Some(q.dest),
                },
            )
        },
        None => None,
    }
}

/// Parses the payload of an ICMPv4 error message (Time Exceeded or
/// Destination Unreachable).
pub fn parse_icmp_error_payload_v4_with_mtu(
    message: &[u8],
    responder: IpAddr,
    our_identifier: u16,
    response_type: IcmpResponseType,
    mtu: Option<u16>,
) -> (r: Option<ParsedResponse>)
    ensures
        response_view(r) == error_response(
            message@,
            quote_v4(message@, our_identifier),
            responder,
            response_type,
            mtu,
        ),
{
    if message.len() < 8 {
        return None;
    }
    let quote: Option<Quote> = read_quote_v4(message, our_identifier);
    respond_to_quote(message, quote, responder, response_type, mtu)
}

/// Parses the payload of an ICMPv6 error message (Time Exceeded, Destination
/// Unreachable or Packet Too Big).
pub fn parse_icmp_error_payload_v6_with_mtu(
    message: &[u8],
    responder: IpAddr,
    our_identifier: u16,
    response_type: IcmpResponseType,
    mtu: Option<u16>,
) -> (r: Option<ParsedResponse>)
    ensures
        response_view(r) == error_response(
            message@,
            quote_v6(message@, our_identifier),
            responder,
            response_type,
            mtu,
        ),
{
    if message.len() < 8 {
        return None;
    }
    let quote: Option<Quote> = read_quote_v6(message, our_identifier);
    respond_to_quote(message, quote, responder, response_type, mtu)
}

/// The MTU that a Destination Unreachable message reports: the last two
/// header bytes, of code 4 (Fragmentation Needed), unless zero.
pub open spec fn fragmentation_mtu(message: Seq<u8>) -> Option<u16> {
    let value = be16_spec(message[6], message[7]);
    if message[1] == 4 && value > 0 {
        Some(value)
    } else {
        None
    }
}

/// The response that an ICMPv4 message is. Echo Replies must have a valid
/// checksum.
pub open spec fn message_response_v4(
    message: Seq<u8>,
    responder: IpAddr,
    our_identifier: u16,
) -> Option<ResponseView> {
    if message.len() < 8 {
        None
    } else if message[0] == ICMPV4_ECHO_REPLY {
        if message_checksum_ok(message) {
            echo_response(message, responder, our_identifier)
        } else {
            None
        }
    } else if message[0] == ICMPV4_TIME_EXCEEDED {
        error_response(
            message,
            quote_v4(message, our_identifier),
            responder,
            IcmpResponseType::TimeExceeded(message[1]),
            None,
        )
    } else if message[0] == ICMPV4_DEST_UNREACHABLE {
        error_response(
            message,
            quote_v4(message, our_identifier),
            responder,
            IcmpResponseType::DestUnreachable(message[1]),
            fragmentation_mtu(message),
        )
    } else {
        None
    }
}

/// Parses an ICMPv4 message of known type and code.
fn parse_message_v4(
    message: &[u8],
    kind: u8,
    code: u8,
    responder: IpAddr,
    our_identifier: u16,
) -> (r: Option<ParsedResponse>)
    requires
        message@.len() >= 8,
        kind == message@[0],
        code == message@[1],
    ensures
        response_view(r) == message_response_v4(message@, responder, our_identifier),
{
    if kind == ICMPV4_ECHO_REPLY {
        if !validate_icmp_checksum(message) {
            return None;
        }
        parse_echo_reply(message, responder, our_identifier)
    } else if kind == ICMPV4_TIME_EXCEEDED {
        parse_icmp_error_payload_v4_with_mtu(
            message,
            responder,
            our_identifier,
            IcmpResponseType::TimeExceeded(code),
            None,
        )
    } else if kind == ICMPV4_DEST_UNREACHABLE {
        let value: u16 = be16(message[6], message[7]);
        let mtu: Option<u16> = if code == 4 && value > 0 {
            Some(value)
        } else {
            None
        };
        parse_icmp_error_payload_v4_with_mtu(
            message,
            responder,
            our_identifier,
            IcmpResponseType::DestUnreachable(code),
            mtu,
        )
    } else {
        None
    }
}

/// Parses ICMPv4 from a datagram socket (no IP header).
pub fn parse_icmp_response_v4_dgram(
    message: &[u8],
    responder: IpAddr,
    our_identifier: u16,
) -> (r: Option<ParsedResponse>)
    ensures
        response_view(r) == message_response_v4(message@, responder, our_identifier),
{
    if message.len() < 8 {
        return None;
    }
    parse_message_v4(message, message[0], message[1], responder, our_identifier)
}

/// The ICMPv4 message in an IPv4 packet: what follows the header.
pub open spec fn packet_message_v4(data: Seq<u8>) -> Seq<u8> {
    data.skip((data[0] % 16) * 4)
}

/// The response that an IPv4 packet with an ICMP message is.
pub open spec fn packet_response_v4(
    data: Seq<u8>,
    responder: IpAddr,
    our_identifier: u16,
) -> Option<ResponseView> {
    if data.len() < 20 || data.len() < (data[0] % 16) * 4 + 8 {
        None
    } else {
        message_response_v4(packet_message_v4(data), responder, our_identifier)
    }
}

/// Parses an IPv4 packet with an ICMP message, as raw sockets deliver it.
pub fn parse_icmp_response_v4(data: &[u8], responder: IpAddr, our_identifier: u16) -> (r: Option<
    ParsedResponse,
>)
    ensures
        response_view(r) == packet_response_v4(data@, responder, our_identifier),
{
    let words: u8 = match ipv4_header_length(data) {
        Some(w) => w,
        None => return None,
    };
    let header_len: usize = header_bytes(words);
    if data.len() < header_len + 8 {
        return None;
    }
    let message: &[u8] = slice_subrange(data, header_len, data.len());
    assert(message@ =~= packet_message_v4(data@));
    let kind: u8 = match icmp_type(message) {
        Some(k) => k,
        None => return None,
    };
    let code: u8 = match icmp_code(message) {
        Some(c) => c,
        None => return None,
    };
    parse_message_v4(message, kind, code, responder, our_identifier)
}

/// Header length in bytes, of a length in 32-bit words.
fn header_bytes(words: u8) -> (r: usize)
    ensures
        r == words * 4,
{
    words as usize * 4
}

/// The MTU that a Packet Too Big message reports: the last four header bytes,
/// if they are from 1 to 65535.
pub open spec fn too_big_mtu(message: Seq<u8>) -> Option<u16> {
    if message[4] == 0 && message[5] == 0 && be16_spec(message[6], message[7]) > 0 {
        Some(be16_spec(message[6], message[7]))
    } else {
        None
    }
}

/// Reads the MTU of a Packet Too Big message.
fn read_too_big_mtu(message: &[u8]) -> (r: Option<u16>)
    requires
        message@.len() >= 8,
    ensures
        r == too_big_mtu(message@),
{
    let value: u32 = be32(message[4], message[5], message[6], message[7]);
    if value > 0 && value <= 65535 {
        Some(be16(message[6], message[7]))
    } else {
        None
    }
}

/// The response that an ICMPv6 message is.
pub open spec fn message_response_v6(
    message: Seq<u8>,
    responder: IpAddr,
    our_identifier: u16,
) -> Option<ResponseView> {
    if message.len() < 8 {
        None
    } else if message[0] == ICMPV6_ECHO_REPLY {
        echo_response(message, responder, our_identifier)
    } else if message[0] == ICMPV6_PACKET_TOO_BIG {
        error_response(
            message,
            quote_v6(message, our_identifier),
            responder,
            IcmpResponseType::PacketTooBig,
            too_big_mtu(message),
        )
    } else if message[0] == ICMPV6_TIME_EXCEEDED {
        error_response(
            message,
            quote_v6(message, our_identifier),
            responder,
            IcmpResponseType::TimeExceeded(message[1]),
            None,
        )
    } else if message[0] == ICMPV6_DEST_UNREACHABLE {
        error_response(
            message,
            quote_v6(message, our_identifier),
            responder,
            IcmpResponseType::DestUnreachable(message[1]),
            None,
        )
    } else {
        None
    }
}

/// Parses ICMPv6 without an IP header, as datagram sockets and raw IPv6
/// sockets deliver it. The kernel has checked the checksum, which covers a
/// pseudo-header that is not at hand here.
pub fn parse_icmp_response_v6_dgram(
    message: &[u8],
    responder: IpAddr,
    our_identifier: u16,
) -> (r: Option<ParsedResponse>)
    ensures
        response_view(r) == message_response_v6(message@, responder, our_identifier),
{
    if message.len() < 8 {
        return None;
    }
    let kind: u8 = message[0];
    let code: u8 = message[1];
    if kind == ICMPV6_ECHO_REPLY {
        parse_echo_reply(message, responder, our_identifier)
    } else if kind == ICMPV6_PACKET_TOO_BIG {
        parse_icmp_error_payload_v6_with_mtu(
            message,
            responder,
            our_identifier,
            IcmpResponseType::PacketTooBig,
            read_too_big_mtu(message),
        )
    } else if kind == ICMPV6_TIME_EXCEEDED {
        parse_icmp_error_payload_v6_with_mtu(
            message,
            responder,
            our_identifier,
            IcmpResponseType::TimeExceeded(code),
            None,
        )
    } else if kind == ICMPV6_DEST_UNREACHABLE {
        parse_icmp_error_payload_v6_with_mtu(
            message,
            responder,
            our_identifier,
            IcmpResponseType::DestUnreachable(code),
            None,
        )
    } else {
        None
    }
}

/// The response that an IPv6 packet is: that of the ICMPv6 message behind its
/// extension headers.
pub open spec fn packet_response_v6(
    data: Seq<u8>,
    responder: IpAddr,
    our_identifier: u16,
) -> Option<ResponseView> {
    match transport_of_v6(data) {
        Some((offset, next_header)) => if next_header == IPV6_NH_V6_CONTROL {
            message_response_v6(data.skip(offset), responder, our_identifier)
        } else {
            None
        },
        None => None,
    }
}

/// Parses an IPv6 packet with an ICMPv6 message, for platforms whose raw
/// sockets deliver the IPv6 header.
pub fn parse_icmp_response_v6(data: &[u8], responder: IpAddr, our_identifier: u16) -> (r: Option<
    ParsedResponse,
>)
    ensures
        response_view(r) == packet_response_v6(data@, responder, our_identifier),
{
    match skip_ipv6_extension_headers(data) {
        Some(offset) => {
            let message: &[u8] = slice_subrange(data, offset, data.len());
            proof {
                let found = transport_of_v6(data@)->0;
                assert(message@ =~= data@.skip(found.0));
            }
            parse_icmp_response_v6_dgram(message, responder, our_identifier)
        },
        None => None,
    }
}

/// The response that received bytes are. Bytes from a datagram socket, and
/// everything from an IPv6 responder, start at the ICMP header; a raw IPv4
/// socket delivers the IP header too.
pub open spec fn received_response(
    data: Seq<u8>,
    responder: IpAddr,
    our_identifier: u16,
    is_dgram: bool,
) -> Option<ResponseView> {
    if responder is V6 {
        message_response_v6(data, responder, our_identifier)
    } else if is_dgram {
        message_response_v4(data, responder, our_identifier)
    } else {
        packet_response_v4(data, responder, our_identifier)
    }
}

/// Parses received bytes and correlates them with one of our probes.
///
/// Nothing is returned for malformed bytes, for a message that does not
/// answer a probe with our identifier, and for an ICMPv4 Echo Reply with an
/// invalid checksum.
pub fn parse_icmp_response(
    data: &[u8],
    responder: IpAddr,
    our_identifier: u16,
    is_dgram: bool,
) -> (r: Option<ParsedResponse>)
    ensures
        response_view(r) == received_response(data@, responder, our_identifier, is_dgram),
{
    if data.len() == 0 {
        return None;
    }
    if is_dgram {
        if responder.is_ipv4() {
            parse_icmp_response_v4_dgram(data, responder, our_identifier)
        } else {
            parse_icmp_response_v6_dgram(data, responder, our_identifier)
        }
    } else if responder.is_ipv6() {
        parse_icmp_response_v6_dgram(data, responder, our_identifier)
    } else {
        parse_icmp_response_v4(data, responder, our_identifier)
    }
}

} // verus!
