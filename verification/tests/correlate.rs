//! Parsing of ICMP answers.

use ttl::addr::{IpAddr, Ipv4Addr, Ipv6Addr};
use ttl::probe::correlate::{parse_icmp_response, parse_icmp_response_v6};
use ttl::probe::icmp::build_echo_request;
use ttl::probe::quoted::skip_ipv6_ext_headers_quoted;
use ttl::state::{IcmpResponseType, MplsLabel, ProbeId};

/// Computes and sets the ICMP checksum of a message.
fn set_icmp_checksum(icmp_data: &mut [u8]) {
    icmp_data[2] = 0;
    icmp_data[3] = 0;

    let mut sum: u32 = 0;
    let mut i = 0;
    while i + 1 < icmp_data.len() {
        sum += u16::from_be_bytes([icmp_data[i], icmp_data[i + 1]]) as u32;
        i += 2;
    }
    if i < icmp_data.len() {
        sum += (icmp_data[i] as u32) << 8;
    }
    while sum >> 16 != 0 {
        sum = (sum & 0xFFFF) + (sum >> 16);
    }
    let checksum = !sum as u16;
    icmp_data[2] = (checksum >> 8) as u8;
    icmp_data[3] = (checksum & 0xFF) as u8;
}

/// The bytes of a label entry.
fn encode_label(l: &MplsLabel) -> [u8; 4] {
    let word = (l.label << 12)
        | ((l.exp as u32) << 9)
        | (if l.bottom { 1 << 8 } else { 0 })
        | (l.ttl as u32);
    word.to_be_bytes()
}

#[test]
fn test_probe_id_round_trip() {
    let original = ProbeId::new(15, 42);
    let sequence = original.to_sequence();
    let decoded = ProbeId::from_sequence(sequence);
    assert_eq!(original.ttl, decoded.ttl);
    assert_eq!(original.seq, decoded.seq);
}

#[test]
fn test_probe_id_boundary_values() {
    // Test max TTL and seq values
    let max = ProbeId::new(255, 255);
    let decoded = ProbeId::from_sequence(max.to_sequence());
    assert_eq!(max.ttl, decoded.ttl);
    assert_eq!(max.seq, decoded.seq);

    // Test zero values
    let zero = ProbeId::new(0, 0);
    let decoded = ProbeId::from_sequence(zero.to_sequence());
    assert_eq!(zero.ttl, decoded.ttl);
    assert_eq!(zero.seq, decoded.seq);
}

#[test]
fn test_empty_packet_returns_none() {
    let responder = IpAddr::V4(Ipv4Addr::new(192, 168, 1, 1));
    assert!(parse_icmp_response(&[], responder, 0x1234, false).is_none());
}

#[test]
fn test_truncated_packet_returns_none() {
    let responder = IpAddr::V4(Ipv4Addr::new(192, 168, 1, 1));
    // Just an IP version nibble, nothing else
    let truncated = [0x45]; // IPv4, IHL=5
    assert!(parse_icmp_response(&truncated, responder, 0x1234, false).is_none());
}

#[test]
fn test_invalid_ip_version_returns_none() {
    let responder = IpAddr::V4(Ipv4Addr::new(192, 168, 1, 1));
    // IP version 3 doesn't exist
    let invalid = [0x30, 0x00, 0x00, 0x00];
    assert!(parse_icmp_response(&invalid, responder, 0x1234, false).is_none());
}

#[test]
fn test_identifier_mismatch_returns_none() {
    let responder = IpAddr::V4(Ipv4Addr::new(192, 168, 1, 1));
    // Build a valid-looking Echo Reply packet with wrong identifier
    // IPv4 header (20 bytes minimum with IHL=5) + ICMP header (8 bytes)
    let mut packet = vec![0u8; 28];

    // IPv4 header
    packet[0] = 0x45; // Version 4, IHL 5
    packet[9] = 1; // Protocol: ICMP

    // ICMP Echo Reply
    packet[20] = 0; // Type: Echo Reply
    packet[21] = 0; // Code: 0
    // Identifier: 0x5678 (wrong - we're looking for 0x1234)
    packet[24] = 0x56;
    packet[25] = 0x78;
    // Sequence
    packet[26] = 0x00;
    packet[27] = 0x01;

    assert!(parse_icmp_response(&packet, responder, 0x1234, false).is_none());
}

#[test]
fn test_parse_echo_reply_v4() {
    let responder = IpAddr::V4(Ipv4Addr::new(8, 8, 8, 8));
    let our_id = 0x1234;

    // Build Echo Reply packet
    let mut packet = vec![0u8; 28];

    // IPv4 header
    packet[0] = 0x45; // Version 4, IHL 5 (20 bytes)
    packet[9] = 1; // Protocol: ICMP

    // ICMP Echo Reply
    packet[20] = 0; // Type: Echo Reply
    packet[21] = 0; // Code: 0
    // Identifier
    packet[24] = 0x12;
    packet[25] = 0x34;
    // Sequence (TTL=10, seq=5)
    let probe_id = ProbeId::new(10, 5);
    let seq = probe_id.to_sequence();
    packet[26] = (seq >> 8) as u8;
    packet[27] = (seq & 0xFF) as u8;

    // Set valid ICMP checksum
    set_icmp_checksum(&mut packet[20..]);

    let result = parse_icmp_response(&packet, responder, our_id, false);
    assert!(result.is_some());

    let parsed = result.unwrap();
    assert_eq!(parsed.responder, responder);
    assert_eq!(parsed.probe_id.ttl, 10);
    assert_eq!(parsed.probe_id.seq, 5);
    assert_eq!(parsed.response_type, IcmpResponseType::EchoReply);
}

#[test]
fn test_parse_time_exceeded_v4() {
    let responder = IpAddr::V4(Ipv4Addr::new(192, 168, 1, 1));
    let our_id = 0xABCD;

    // Build Time Exceeded packet
    // Outer IPv4 (20) + ICMP header (8) + Original IPv4 (20) + Original ICMP (8) = 56 bytes
    let mut packet = vec![0u8; 56];

    // Outer IPv4 header
    packet[0] = 0x45;
    packet[9] = 1; // ICMP

    // ICMP Time Exceeded
    packet[20] = 11; // Type: Time Exceeded
    packet[21] = 0; // Code: TTL exceeded

    // Original IP header (inside ICMP payload at offset 28)
    packet[28] = 0x45; // Version 4, IHL 5
    packet[37] = 1; // Protocol: ICMP

    // Original ICMP Echo Request (at offset 48)
    packet[48] = 8; // Type: Echo Request
    packet[49] = 0; // Code: 0
    // Identifier
    packet[52] = 0xAB;
    packet[53] = 0xCD;
    // Sequence (TTL=5, seq=3)
    let probe_id = ProbeId::new(5, 3);
    let seq = probe_id.to_sequence();
    packet[54] = (seq >> 8) as u8;
    packet[55] = (seq & 0xFF) as u8;

    let result = parse_icmp_response(&packet, responder, our_id, false);
    assert!(result.is_some());

    let parsed = result.unwrap();
    assert_eq!(parsed.probe_id.ttl, 5);
    assert_eq!(parsed.probe_id.seq, 3);
    assert_eq!(parsed.response_type, IcmpResponseType::TimeExceeded(0));
}

#[test]
fn test_variable_ihl_v4() {
    let responder = IpAddr::V4(Ipv4Addr::new(8, 8, 8, 8));
    let our_id = 0x1234;

    // Build Echo Reply with IHL=6 (24 byte IP header with options)
    let mut packet = vec![0u8; 32]; // 24 IP + 8 ICMP

    // IPv4 header with IHL=6
    packet[0] = 0x46; // Version 4, IHL 6 (24 bytes)
    packet[9] = 1; // Protocol: ICMP

    // ICMP Echo Reply at offset 24
    packet[24] = 0; // Type: Echo Reply
    packet[25] = 0; // Code: 0
    // Identifier
    packet[28] = 0x12;
    packet[29] = 0x34;
    // Sequence
    let probe_id = ProbeId::new(7, 2);
    let seq = probe_id.to_sequence();
    packet[30] = (seq >> 8) as u8;
    packet[31] = (seq & 0xFF) as u8;

    // Set valid ICMP checksum (ICMP starts at offset 24)
    set_icmp_checksum(&mut packet[24..]);

    let result = parse_icmp_response(&packet, responder, our_id, false);
    assert!(result.is_some());

    let parsed = result.unwrap();
    assert_eq!(parsed.probe_id.ttl, 7);
    assert_eq!(parsed.probe_id.seq, 2);
}

#[test]
fn test_parse_echo_reply_v6() {
    let responder = IpAddr::V6(Ipv6Addr::new(
        0x2001, 0x4860, 0x4860, 0, 0, 0, 0, 0x8888,
    ));
    let our_id = 0x1234;

    // Build ICMPv6 Echo Reply packet (no IPv6 header - kernel strips it on Linux)
    // ICMPv6 Echo Reply: 8 bytes header + payload
    let mut packet = vec![0u8; 12]; // 8 header + 4 payload for identifier backup

    // ICMPv6 Echo Reply
    packet[0] = 129; // Type: Echo Reply
    packet[1] = 0; // Code: 0
    // Checksum (bytes 2-3, kernel validates)
    // Identifier
    packet[4] = 0x12;
    packet[5] = 0x34;
    // Sequence (TTL=8, seq=4)
    let probe_id = ProbeId::new(8, 4);
    let seq = probe_id.to_sequence();
    packet[6] = (seq >> 8) as u8;
    packet[7] = (seq & 0xFF) as u8;

    let result = parse_icmp_response(&packet, responder, our_id, false);
    assert!(result.is_some());

    let parsed = result.unwrap();
    assert_eq!(parsed.responder, responder);
    assert_eq!(parsed.probe_id.ttl, 8);
    assert_eq!(parsed.probe_id.seq, 4);
    assert_eq!(parsed.response_type, IcmpResponseType::EchoReply);
}

#[test]
fn test_parse_time_exceeded_v6() {
    let responder = IpAddr::V6(Ipv6Addr::new(0x2001, 0xdb8, 0, 0, 0, 0, 0, 1));
    let our_id = 0xABCD;

    // Build ICMPv6 Time Exceeded packet (no outer IPv6 header - kernel strips it)
    // ICMPv6 header (8) + Original IPv6 (40) + Original ICMPv6 (8) = 56 bytes
    let mut packet = vec![0u8; 56];

    // ICMPv6 Time Exceeded
    packet[0] = 3; // Type: Time Exceeded
    packet[1] = 0; // Code: Hop limit exceeded
    // Checksum (bytes 2-3)
    // Unused (bytes 4-7)

    // Original IPv6 header (inside ICMPv6 payload at offset 8)
    packet[8] = 0x60; // Version 6
    packet[14] = 58; // Next Header: ICMPv6

    // Original ICMPv6 Echo Request (at offset 48 = 8 + 40)
    packet[48] = 128; // Type: Echo Request
    packet[49] = 0; // Code: 0
    // Identifier
    packet[52] = 0xAB;
    packet[53] = 0xCD;
    // Sequence (TTL=6, seq=2)
    let probe_id = ProbeId::new(6, 2);
    let seq = probe_id.to_sequence();
    packet[54] = (seq >> 8) as u8;
    packet[55] = (seq & 0xFF) as u8;

    let result = parse_icmp_response(&packet, responder, our_id, false);
    assert!(result.is_some());

    let parsed = result.unwrap();
    assert_eq!(parsed.probe_id.ttl, 6);
    assert_eq!(parsed.probe_id.seq, 2);
    assert_eq!(parsed.response_type, IcmpResponseType::TimeExceeded(0));
}

// Test: ICMPv6 error with quoted IPv6 packet containing extension headers (LAN-144).
// Without extension header parsing, the transport header would be mis-aligned.
#[test]
fn test_parse_time_exceeded_v6_with_ext_headers() {
    let responder = IpAddr::V6(Ipv6Addr::new(0x2001, 0xdb8, 0, 0, 0, 0, 0, 1));
    let our_id = 0xABCD;

    // Layout:
    // [0-7]   ICMPv6 Time Exceeded header
    // [8-47]  Original IPv6 header (40 bytes) — Next Header = Hop-by-Hop (0)
    // [48-55] Hop-by-Hop extension header (8 bytes) — Next Header = ICMPv6 (58)
    // [56-63] Original ICMPv6 Echo Request (8 bytes)
    // Total: 64 bytes
    let mut packet = vec![0u8; 64];

    // ICMPv6 Time Exceeded
    packet[0] = 3; // Type: Time Exceeded
    packet[1] = 0; // Code: Hop limit exceeded

    // Original IPv6 header (offset 8)
    packet[8] = 0x60; // Version 6
    packet[14] = 0; // Next Header: Hop-by-Hop (0)
    packet[15] = 1; // Hop limit (quoted TTL)

    // Hop-by-Hop extension header (offset 48 = 8 + 40)
    packet[48] = 58; // Next Header: ICMPv6 (58)
    packet[49] = 0; // Length: 0 (8 bytes total, excluding first 8 → (0+1)*8=8)

    // Original ICMPv6 Echo Request (offset 56 = 48 + 8)
    packet[56] = 128; // Type: Echo Request
    packet[57] = 0; // Code: 0
    packet[60] = 0xAB; // Identifier high
    packet[61] = 0xCD; // Identifier low
    let probe_id = ProbeId::new(6, 2);
    let seq = probe_id.to_sequence();
    packet[62] = (seq >> 8) as u8;
    packet[63] = (seq & 0xFF) as u8;

    // Parse as DGRAM (no outer IP header, starts at ICMPv6)
    let result = parse_icmp_response(&packet, responder, our_id, true);
    assert!(result.is_some(), "should parse with extension headers");

    let parsed = result.unwrap();
    assert_eq!(parsed.probe_id.ttl, 6);
    assert_eq!(parsed.probe_id.seq, 2);
    assert_eq!(parsed.response_type, IcmpResponseType::TimeExceeded(0));
    assert_eq!(parsed.quoted_ttl, Some(1));
}

// Test: extension header with Routing header type should also be skipped
#[test]
fn test_parse_time_exceeded_v6_with_routing_ext_header() {
    let responder = IpAddr::V6(Ipv6Addr::new(0x2001, 0xdb8, 0, 0, 0, 0, 0, 1));
    let our_id = 0xABCD;

    // Layout with Routing extension header (NH=43):
    // [0-7]   ICMPv6 Time Exceeded
    // [8-47]  IPv6 header — Next Header = Routing (43)
    // [48-55] Routing ext header (8 bytes) — Next Header = ICMPv6 (58)
    // [56-63] ICMPv6 Echo Request
    let mut packet = vec![0u8; 64];

    packet[0] = 3;
    packet[8] = 0x60;
    packet[14] = 43; // Next Header: Routing
    packet[15] = 2; // Hop limit

    // Routing extension header (offset 48)
    packet[48] = 58; // Next Header: ICMPv6
    packet[49] = 0; // Length: 0 → 8 bytes

    // ICMPv6 Echo Request (offset 56)
    packet[56] = 128;
    packet[60] = 0xAB;
    packet[61] = 0xCD;
    let probe_id = ProbeId::new(8, 3);
    let seq = probe_id.to_sequence();
    packet[62] = (seq >> 8) as u8;
    packet[63] = (seq & 0xFF) as u8;

    let result = parse_icmp_response(&packet, responder, our_id, true);
    assert!(result.is_some());
    let parsed = result.unwrap();
    assert_eq!(parsed.probe_id.ttl, 8);
    assert_eq!(parsed.probe_id.seq, 3);
    assert_eq!(parsed.quoted_ttl, Some(2));
}

// Test: fragment extension header in quoted packet should be rejected
#[test]
fn test_parse_v6_error_quoted_fragment_rejected() {
    let responder = IpAddr::V6(Ipv6Addr::new(0x2001, 0xdb8, 0, 0, 0, 0, 0, 1));
    let our_id = 0xABCD;

    // IPv6 header with Next Header = Fragment (44)
    let mut packet = vec![0u8; 64];
    packet[0] = 3;
    packet[8] = 0x60;
    packet[14] = 44; // Next Header: Fragment
    packet[15] = 1;

    // Fragment header (offset 48)
    packet[48] = 58; // Next Header: ICMPv6

    // ICMPv6 at offset 56
    packet[56] = 128;
    packet[60] = 0xAB;
    packet[61] = 0xCD;
    let probe_id = ProbeId::new(4, 1);
    let seq = probe_id.to_sequence();
    packet[62] = (seq >> 8) as u8;
    packet[63] = (seq & 0xFF) as u8;

    // Fragment headers in quoted packets should be rejected (can't reassemble)
    let result = parse_icmp_response(&packet, responder, our_id, true);
    assert!(result.is_none());
}

#[test]
fn test_parse_v6_error_quoted_ext_header_without_transport_rejected() {
    let responder = IpAddr::V6(Ipv6Addr::new(0x2001, 0xdb8, 0, 0, 0, 0, 0, 1));
    let our_id = 0xABCD;

    // ICMPv6 Time Exceeded quoting an IPv6 packet whose Hop-by-Hop header
    // points to ICMPv6, but the quote ends before the ICMPv6 header. This
    // must return None rather than indexing an empty transport payload.
    let mut packet = vec![0u8; 56];
    packet[0] = 3; // Time Exceeded
    packet[1] = 0; // Hop limit exceeded
    packet[8] = 0x60; // Quoted IPv6 version
    packet[14] = 0; // Next Header: Hop-by-Hop
    packet[15] = 1; // Quoted hop limit
    packet[48] = 58; // Hop-by-Hop Next Header: ICMPv6
    packet[49] = 0; // 8-byte extension header, no transport bytes follow

    let result = parse_icmp_response(&packet, responder, our_id, true);
    assert!(result.is_none());
}

#[test]
fn test_ipv6_fragment_header_rejected() {
    let responder = IpAddr::V6(Ipv6Addr::new(
        0x2001, 0x4860, 0x4860, 0, 0, 0, 0, 0x8888,
    ));
    let our_id = 0x1234;

    // Build IPv6 with Fragment header - should be rejected
    let mut packet = vec![0u8; 56];

    // IPv6 header
    packet[0] = 0x60;
    packet[6] = 44; // Next Header: Fragment

    // Fragment header at offset 40
    packet[40] = 58; // Next Header: ICMPv6
    // Fragment header is 8 bytes

    // ICMPv6 at offset 48
    packet[48] = 129; // Echo Reply
    packet[52] = 0x12;
    packet[53] = 0x34;

    // Fragments are rejected (we don't handle reassembly)
    let result = parse_icmp_response(&packet, responder, our_id, false);
    assert!(result.is_none());
}

#[test]
fn test_invalid_icmp_checksum_rejected() {
    let responder = IpAddr::V4(Ipv4Addr::new(8, 8, 8, 8));
    let our_id = 0x1234;

    // Build Echo Reply with invalid checksum
    let mut packet = vec![0u8; 28];

    // IPv4 header
    packet[0] = 0x45;
    packet[9] = 1; // ICMP

    // ICMP Echo Reply with bad checksum
    packet[20] = 0; // Type: Echo Reply
    packet[21] = 0; // Code: 0
    packet[22] = 0xFF; // Invalid checksum
    packet[23] = 0xFF;
    packet[24] = 0x12;
    packet[25] = 0x34;
    let probe_id = ProbeId::new(1, 1);
    let seq = probe_id.to_sequence();
    packet[26] = (seq >> 8) as u8;
    packet[27] = (seq & 0xFF) as u8;

    // Should be rejected due to invalid checksum
    let result = parse_icmp_response(&packet, responder, our_id, false);
    assert!(result.is_none());
}

#[test]
fn test_dest_unreachable_v4() {
    let responder = IpAddr::V4(Ipv4Addr::new(192, 168, 1, 1));
    let our_id = 0xDEAD;

    // Build Destination Unreachable packet (similar structure to Time Exceeded)
    let mut packet = vec![0u8; 56];

    // Outer IPv4 header
    packet[0] = 0x45;
    packet[9] = 1;

    // ICMP Destination Unreachable
    packet[20] = 3; // Type: Destination Unreachable
    packet[21] = 1; // Code: Host Unreachable

    // Original IP header at offset 28
    packet[28] = 0x45;
    packet[37] = 1;

    // Original ICMP at offset 48
    packet[48] = 8; // Echo Request
    packet[52] = 0xDE;
    packet[53] = 0xAD;
    let probe_id = ProbeId::new(12, 3);
    let seq = probe_id.to_sequence();
    packet[54] = (seq >> 8) as u8;
    packet[55] = (seq & 0xFF) as u8;

    let result = parse_icmp_response(&packet, responder, our_id, false);
    assert!(result.is_some());

    let parsed = result.unwrap();
    assert_eq!(parsed.probe_id.ttl, 12);
    assert_eq!(parsed.probe_id.seq, 3);
    assert!(matches!(
        parsed.response_type,
        IcmpResponseType::DestUnreachable(1)
    ));
}

#[test]
fn test_mpls_label_parsing() {
    // Test MplsLabel::from_bytes parsing
    // Label = 24000 (0x5DC0), Exp = 3, Bottom = true, TTL = 62
    // Binary: 0000 0101 1101 1100 0000 0111 0011 1110
    //         |------- label (20) ------||exp||S|TTL|
    let bytes: [u8; 4] = [0x05, 0xDC, 0x07, 0x3E];
    let label = MplsLabel::from_bytes(&bytes);
    assert_eq!(label.label, 24000);
    assert_eq!(label.exp, 3);
    assert!(label.bottom);
    assert_eq!(label.ttl, 62);
}

#[test]
fn test_mpls_label_stack_parsing() {
    // Test parsing MPLS label stack from ICMP extension
    // Label 1: 16000, Exp=0, S=0, TTL=64
    // Label 2: 24000, Exp=3, S=1, TTL=62
    let label1 = MplsLabel {
        label: 16000,
        exp: 0,
        bottom: false,
        ttl: 64,
    };
    let label2 = MplsLabel {
        label: 24000,
        exp: 3,
        bottom: true,
        ttl: 62,
    };

    let l1_bytes = encode_label(&label1);
    let l2_bytes = encode_label(&label2);

    // Verify parsing roundtrip
    let parsed1 = MplsLabel::from_bytes(&l1_bytes);
    assert_eq!(parsed1.label, 16000);
    assert_eq!(parsed1.exp, 0);
    assert!(!parsed1.bottom);
    assert_eq!(parsed1.ttl, 64);

    let parsed2 = MplsLabel::from_bytes(&l2_bytes);
    assert_eq!(parsed2.label, 24000);
    assert_eq!(parsed2.exp, 3);
    assert!(parsed2.bottom);
    assert_eq!(parsed2.ttl, 62);
}

#[test]
fn test_time_exceeded_with_mpls_extension() {
    let responder = IpAddr::V4(Ipv4Addr::new(10, 0, 0, 1));
    let our_id = 0x1234;

    // Build Time Exceeded with MPLS extension
    // Layout:
    // [0-19]   Outer IPv4 header (20 bytes)
    // [20-27]  ICMP header (8 bytes: type, code, checksum, unused)
    // [28-155] Original datagram (padded to 128 bytes for extensions)
    // [156-159] Extension header (4 bytes: version, reserved, checksum)
    // [160-163] MPLS object header (4 bytes: length, class, type)
    // [164-167] MPLS label entry (4 bytes)

    let mut packet = vec![0u8; 168];

    // Outer IPv4 header
    packet[0] = 0x45;
    packet[9] = 1; // ICMP

    // ICMP Time Exceeded
    packet[20] = 11; // Type: Time Exceeded
    packet[21] = 0; // Code: TTL exceeded

    // Original IP header (at offset 28)
    packet[28] = 0x45;
    packet[37] = 1; // Protocol: ICMP

    // Original ICMP Echo Request (at offset 48)
    packet[48] = 8; // Type: Echo Request
    packet[49] = 0; // Code: 0
    packet[52] = 0x12; // Identifier
    packet[53] = 0x34;
    let probe_id = ProbeId::new(5, 1);
    let seq = probe_id.to_sequence();
    packet[54] = (seq >> 8) as u8;
    packet[55] = (seq & 0xFF) as u8;

    // ICMP Extension header (at offset 156 = 28 + 128)
    // Version 2, reserved, checksum (we skip checksum validation)
    packet[156] = 0x20; // Version 2 in high nibble
    packet[157] = 0x00;
    packet[158] = 0x00; // Checksum (not validated)
    packet[159] = 0x00;

    // MPLS extension object header (at offset 160)
    packet[160] = 0x00; // Length high byte
    packet[161] = 0x08; // Length = 8 (header + 1 label)
    packet[162] = 0x01; // Class = 1 (MPLS)
    packet[163] = 0x01; // Type = 1 (Label Stack)

    // MPLS label: label=24000, exp=3, S=1, TTL=62
    // word = (24000 << 12) | (3 << 9) | (1 << 8) | 62
    let label_word: u32 = (24000 << 12) | (3 << 9) | (1 << 8) | 62;
    let label_bytes = label_word.to_be_bytes();
    packet[164..168].copy_from_slice(&label_bytes);

    let result = parse_icmp_response(&packet, responder, our_id, false);
    assert!(result.is_some());

    let parsed = result.unwrap();
    assert_eq!(parsed.probe_id.ttl, 5);
    assert_eq!(parsed.probe_id.seq, 1);
    assert_eq!(parsed.response_type, IcmpResponseType::TimeExceeded(0));

    // Verify MPLS labels were parsed
    assert!(parsed.mpls_labels.is_some());
    let labels = parsed.mpls_labels.unwrap();
    assert_eq!(labels.len(), 1);
    assert_eq!(labels[0].label, 24000);
    assert_eq!(labels[0].exp, 3);
    assert!(labels[0].bottom);
    assert_eq!(labels[0].ttl, 62);
}

#[test]
fn test_time_exceeded_with_mpls_rfc4884_length() {
    // Test RFC 4884 compliant packet with non-zero length field
    let responder = IpAddr::V4(Ipv4Addr::new(10, 0, 0, 1));
    let our_id = 0x1234;

    // Layout with RFC 4884 length field:
    // Original datagram = 48 bytes (12 * 4), so length field = 12
    // Extensions start at offset 28 + 48 = 76
    let mut packet = vec![0u8; 100];

    // Outer IPv4 header
    packet[0] = 0x45;
    packet[9] = 1; // ICMP

    // ICMP Time Exceeded with RFC 4884 length field
    packet[20] = 11; // Type: Time Exceeded
    packet[21] = 0; // Code: TTL exceeded
    packet[25] = 12; // Length = 12 (48 bytes of original datagram)

    // Original IP header (at offset 28)
    packet[28] = 0x45;
    packet[37] = 1; // Protocol: ICMP

    // Original ICMP Echo Request (at offset 48)
    packet[48] = 8; // Type: Echo Request
    packet[52] = 0x12; // Identifier
    packet[53] = 0x34;
    let probe_id = ProbeId::new(3, 2);
    let seq = probe_id.to_sequence();
    packet[54] = (seq >> 8) as u8;
    packet[55] = (seq & 0xFF) as u8;

    // Extension header at offset 76 (28 + 48)
    packet[76] = 0x20; // Version 2
    packet[77] = 0x00;
    packet[78] = 0x00; // Checksum
    packet[79] = 0x00;

    // MPLS object header at offset 80
    packet[80] = 0x00;
    packet[81] = 0x08; // Length = 8
    packet[82] = 0x01; // Class = 1 (MPLS)
    packet[83] = 0x01; // Type = 1

    // MPLS label: label=16000, exp=0, S=1, TTL=64
    let label_word: u32 = (16000 << 12) | (1 << 8) | 64;
    let label_bytes = label_word.to_be_bytes();
    packet[84..88].copy_from_slice(&label_bytes);

    let result = parse_icmp_response(&packet, responder, our_id, false);
    assert!(result.is_some());

    let parsed = result.unwrap();
    assert_eq!(parsed.probe_id.ttl, 3);
    assert_eq!(parsed.probe_id.seq, 2);

    // Verify MPLS labels were parsed using RFC 4884 length field
    assert!(parsed.mpls_labels.is_some());
    let labels = parsed.mpls_labels.unwrap();
    assert_eq!(labels.len(), 1);
    assert_eq!(labels[0].label, 16000);
    assert_eq!(labels[0].ttl, 64);
}

#[test]
fn test_time_exceeded_without_extension() {
    // Same test as test_parse_time_exceeded_v4 but verify no MPLS labels
    let responder = IpAddr::V4(Ipv4Addr::new(192, 168, 1, 1));
    let our_id = 0xABCD;

    // Packet without extensions (too short for extensions)
    let mut packet = vec![0u8; 56];

    packet[0] = 0x45;
    packet[9] = 1;
    packet[20] = 11;
    packet[21] = 0;
    packet[28] = 0x45;
    packet[37] = 1;
    packet[48] = 8;
    packet[52] = 0xAB;
    packet[53] = 0xCD;
    let probe_id = ProbeId::new(5, 3);
    let seq = probe_id.to_sequence();
    packet[54] = (seq >> 8) as u8;
    packet[55] = (seq & 0xFF) as u8;

    let result = parse_icmp_response(&packet, responder, our_id, false);
    assert!(result.is_some());

    let parsed = result.unwrap();
    // Should have no MPLS labels (packet too short)
    assert!(parsed.mpls_labels.is_none());
}

#[test]
fn test_parse_echo_reply_dgram() {
    // DGRAM sockets don't include IP header - packet starts at ICMP
    let responder = IpAddr::V4(Ipv4Addr::new(8, 8, 8, 8));
    let our_id = 0x1234;

    // ICMP Echo Reply (no IP header): 8 bytes header + 8 bytes payload
    let mut packet = vec![0u8; 16];

    // ICMP header
    packet[0] = 0; // Type: Echo Reply
    packet[1] = 0; // Code: 0
    // Checksum will be set below
    packet[4] = 0x12; // Identifier high byte
    packet[5] = 0x34; // Identifier low byte

    // Sequence (TTL=10, seq=5)
    let probe_id = ProbeId::new(10, 5);
    let seq = probe_id.to_sequence();
    packet[6] = (seq >> 8) as u8;
    packet[7] = (seq & 0xFF) as u8;

    // Payload: embedded ProbeId at bytes 0-3 (for macOS DGRAM fallback)
    packet[8] = 0x12; // Identifier high byte
    packet[9] = 0x34; // Identifier low byte
    packet[10] = (seq >> 8) as u8; // Sequence high byte
    packet[11] = (seq & 0xFF) as u8; // Sequence low byte

    // Set valid ICMP checksum
    set_icmp_checksum(&mut packet);

    let result = parse_icmp_response(&packet, responder, our_id, true); // is_dgram=true
    assert!(result.is_some());

    let parsed = result.unwrap();
    assert_eq!(parsed.responder, responder);
    assert_eq!(parsed.probe_id.ttl, 10);
    assert_eq!(parsed.probe_id.seq, 5);
    assert_eq!(parsed.response_type, IcmpResponseType::EchoReply);
}

#[test]
fn test_parse_time_exceeded_dgram() {
    // DGRAM sockets don't include outer IP header - packet starts at ICMP
    let responder = IpAddr::V4(Ipv4Addr::new(192, 168, 1, 1));
    let our_id = 0xABCD;

    // ICMP Time Exceeded (8) + Original IPv4 (20) + Original ICMP (12) = 40 bytes
    // Note: 12 bytes of original ICMP to include payload for fallback test
    let mut packet = vec![0u8; 40];

    // ICMP Time Exceeded header
    packet[0] = 11; // Type: Time Exceeded
    packet[1] = 0; // Code: TTL exceeded
    // Checksum at [2-3] - not validated for error messages
    // Unused at [4-7]

    // Original IP header (inside ICMP payload at offset 8)
    packet[8] = 0x45; // Version 4, IHL 5
    packet[17] = 1; // Protocol: ICMP

    // Original ICMP Echo Request (at offset 28 = 8 + 20)
    packet[28] = 8; // Type: Echo Request
    packet[29] = 0; // Code: 0
    // Checksum at [30-31]
    packet[32] = 0xAB; // Identifier high byte
    packet[33] = 0xCD; // Identifier low byte

    // Sequence (TTL=5, seq=3)
    let probe_id = ProbeId::new(5, 3);
    let seq = probe_id.to_sequence();
    packet[34] = (seq >> 8) as u8;
    packet[35] = (seq & 0xFF) as u8;

    // Original ICMP payload: embedded ProbeId at bytes 0-3 (offset 36-39)
    packet[36] = 0xAB; // Identifier high byte
    packet[37] = 0xCD; // Identifier low byte
    packet[38] = (seq >> 8) as u8;
    packet[39] = (seq & 0xFF) as u8;

    let result = parse_icmp_response(&packet, responder, our_id, true); // is_dgram=true
    assert!(result.is_some());

    let parsed = result.unwrap();
    assert_eq!(parsed.probe_id.ttl, 5);
    assert_eq!(parsed.probe_id.seq, 3);
    assert!(matches!(
        parsed.response_type,
        IcmpResponseType::TimeExceeded(0)
    ));
}

#[test]
fn test_parse_echo_reply_dgram_payload_fallback() {
    // Test the payload-based identifier fallback when ICMP header identifier differs
    let responder = IpAddr::V4(Ipv4Addr::new(8, 8, 8, 8));
    let our_id = 0x1234;

    let mut packet = vec![0u8; 16];

    // ICMP header with DIFFERENT identifier (simulating macOS override)
    packet[0] = 0; // Type: Echo Reply
    packet[1] = 0; // Code: 0
    packet[4] = 0xFF; // Wrong identifier high byte
    packet[5] = 0xFF; // Wrong identifier low byte

    let probe_id = ProbeId::new(10, 5);
    let seq = probe_id.to_sequence();
    packet[6] = (seq >> 8) as u8;
    packet[7] = (seq & 0xFF) as u8;

    // Payload: CORRECT identifier (fallback should find this)
    packet[8] = 0x12; // Identifier high byte
    packet[9] = 0x34; // Identifier low byte
    packet[10] = (seq >> 8) as u8;
    packet[11] = (seq & 0xFF) as u8;

    set_icmp_checksum(&mut packet);

    let result = parse_icmp_response(&packet, responder, our_id, true);
    assert!(result.is_some());

    let parsed = result.unwrap();
    assert_eq!(parsed.probe_id.ttl, 10);
    assert_eq!(parsed.probe_id.seq, 5);
}

#[test]
fn test_parse_echo_reply_raw_payload_fallback() {
    // Test RAW socket payload fallback when ICMP header identifier differs
    // This happens on macOS when send uses DGRAM (kernel may modify ID) but recv uses RAW
    let responder = IpAddr::V4(Ipv4Addr::new(8, 8, 8, 8));
    let our_id = 0x1234;

    // RAW packet: 20 IP + 8 ICMP header + 8 payload = 36 bytes
    let mut packet = vec![0u8; 36];

    // IPv4 header
    packet[0] = 0x45; // Version 4, IHL 5 (20 bytes)
    packet[9] = 1; // Protocol: ICMP

    // ICMP Echo Reply with WRONG identifier (offset 20)
    packet[20] = 0; // Type: Echo Reply
    packet[21] = 0; // Code: 0
    packet[24] = 0xFF; // Wrong ID high
    packet[25] = 0xFF; // Wrong ID low

    let probe_id = ProbeId::new(10, 5);
    let seq = probe_id.to_sequence();
    packet[26] = (seq >> 8) as u8;
    packet[27] = (seq & 0xFF) as u8;

    // Payload with CORRECT identifier (offset 28)
    packet[28] = 0x12; // our_id high
    packet[29] = 0x34; // our_id low
    packet[30] = (seq >> 8) as u8;
    packet[31] = (seq & 0xFF) as u8;

    // Set valid ICMP checksum (ICMP starts at offset 20)
    set_icmp_checksum(&mut packet[20..]);

    let result = parse_icmp_response(&packet, responder, our_id, false); // is_dgram=false (RAW)
    assert!(result.is_some());

    let parsed = result.unwrap();
    assert_eq!(parsed.probe_id.ttl, 10);
    assert_eq!(parsed.probe_id.seq, 5);
    assert_eq!(parsed.response_type, IcmpResponseType::EchoReply);
}

#[test]
fn test_parse_time_exceeded_raw_payload_fallback() {
    // Test RAW socket Time Exceeded payload fallback when ICMP header identifier differs
    // This is the intermediate router case - the actual traceroute hops
    let responder = IpAddr::V4(Ipv4Addr::new(192, 168, 1, 1));
    let our_id = 0x1234;

    // RAW Time Exceeded packet structure:
    // [0-19]   Outer IP header (20 bytes)
    // [20-27]  ICMP Time Exceeded header (8 bytes): type=11, code=0, checksum, unused
    // [28-47]  Original IP header (20 bytes)
    // [48-63]  Original ICMP Echo Request (8 header + 8 payload = 16 bytes)
    let mut packet = vec![0u8; 64];

    // Outer IPv4 header
    packet[0] = 0x45; // Version 4, IHL 5 (20 bytes)
    packet[9] = 1; // Protocol: ICMP

    // ICMP Time Exceeded header (offset 20)
    packet[20] = 11; // Type: Time Exceeded
    packet[21] = 0; // Code: TTL exceeded in transit

    // Original IP header (offset 28)
    packet[28] = 0x45; // Version 4, IHL 5
    packet[37] = 1; // Protocol: ICMP

    // Original ICMP Echo Request (offset 48)
    packet[48] = 8; // Type: Echo Request
    packet[49] = 0; // Code: 0
    // Wrong identifier in ICMP header
    packet[52] = 0xFF; // Wrong ID high
    packet[53] = 0xFF; // Wrong ID low

    let probe_id = ProbeId::new(3, 1); // TTL 3, seq 1
    let seq = probe_id.to_sequence();
    packet[54] = (seq >> 8) as u8;
    packet[55] = (seq & 0xFF) as u8;

    // Payload with CORRECT identifier (offset 56 = 48 + 8)
    packet[56] = 0x12; // our_id high
    packet[57] = 0x34; // our_id low
    packet[58] = (seq >> 8) as u8;
    packet[59] = (seq & 0xFF) as u8;

    // Set ICMP checksum for outer Time Exceeded (offset 20, length 44)
    set_icmp_checksum(&mut packet[20..]);

    let result = parse_icmp_response(&packet, responder, our_id, false); // is_dgram=false (RAW)
    assert!(result.is_some());

    let parsed = result.unwrap();
    assert_eq!(parsed.probe_id.ttl, 3);
    assert_eq!(parsed.probe_id.seq, 1);
    assert!(matches!(
        parsed.response_type,
        IcmpResponseType::TimeExceeded(0)
    ));
}

#[test]
fn test_parse_echo_reply_v6_raw_payload_fallback() {
    // IPv6 RAW receive path on Linux uses ICMPv6 payload without outer IPv6 header.
    let responder = IpAddr::V6(Ipv6Addr::new(0x2001, 0xdb8, 0, 0, 0, 0, 0, 0x1));
    let our_id = 0x1234;

    // ICMPv6 Echo Reply: 8-byte header + 4-byte payload fallback
    let mut packet = vec![0u8; 12];
    packet[0] = 129; // Echo Reply
    packet[1] = 0; // Code
    packet[4] = 0xFF; // Wrong identifier high
    packet[5] = 0xFF; // Wrong identifier low

    let probe_id = ProbeId::new(9, 4);
    let seq = probe_id.to_sequence();
    packet[6] = (seq >> 8) as u8;
    packet[7] = (seq & 0xFF) as u8;

    // Payload with correct identifier/sequence for fallback.
    packet[8] = 0x12;
    packet[9] = 0x34;
    packet[10] = (seq >> 8) as u8;
    packet[11] = (seq & 0xFF) as u8;

    let result = parse_icmp_response(&packet, responder, our_id, false); // RAW path
    assert!(result.is_some());

    let parsed = result.unwrap();
    assert_eq!(parsed.probe_id.ttl, 9);
    assert_eq!(parsed.probe_id.seq, 4);
    assert_eq!(parsed.response_type, IcmpResponseType::EchoReply);
}

#[test]
fn test_parse_time_exceeded_v6_raw_payload_fallback() {
    let responder = IpAddr::V6(Ipv6Addr::new(0x2001, 0xdb8, 0, 0, 0, 0, 0, 0x2));
    let our_id = 0x1234;

    // ICMPv6 Time Exceeded (8) + original IPv6 (40) + original ICMPv6 (12)
    // Include 4 bytes of quoted payload to exercise fallback path.
    let mut packet = vec![0u8; 60];
    packet[0] = 3; // Time Exceeded
    packet[1] = 0; // Hop limit exceeded

    // Original IPv6 header (offset 8)
    packet[8] = 0x60; // Version 6
    packet[14] = 58; // Next Header: ICMPv6
    packet[15] = 1; // Quoted hop limit

    // Original ICMPv6 Echo Request (offset 48)
    packet[48] = 128; // Echo Request
    packet[49] = 0; // Code
    packet[52] = 0xFF; // Wrong identifier high
    packet[53] = 0xFF; // Wrong identifier low

    let probe_id = ProbeId::new(6, 7);
    let seq = probe_id.to_sequence();
    packet[54] = (seq >> 8) as u8;
    packet[55] = (seq & 0xFF) as u8;

    // Quoted ICMPv6 payload fallback (offset 56)
    packet[56] = 0x12; // Correct identifier high
    packet[57] = 0x34; // Correct identifier low
    packet[58] = (seq >> 8) as u8;
    packet[59] = (seq & 0xFF) as u8;

    let result = parse_icmp_response(&packet, responder, our_id, false); // RAW path
    assert!(result.is_some());

    let parsed = result.unwrap();
    assert_eq!(parsed.probe_id.ttl, 6);
    assert_eq!(parsed.probe_id.seq, 7);
    assert!(matches!(
        parsed.response_type,
        IcmpResponseType::TimeExceeded(0)
    ));
}

/// End-to-end test: build a PMTUD Echo Request, convert to Echo Reply,
/// parse it, and verify is_pmtud is true. This catches offset bugs
/// (icmp_data vs payload slice) that builder-only tests miss.
#[test]
fn test_parse_pmtud_echo_reply_v4_dgram() {
    let our_id = 0x1234;
    let probe_id = ProbeId::new(10, 5);
    let responder = IpAddr::V4(Ipv4Addr::new(8, 8, 8, 8));

    // Build a PMTUD Echo Request via the real builder
    let request = build_echo_request(
        our_id,
        probe_id.to_sequence(),
        56,
        false,
        None,
        true,
        7,
    );

    // Convert to Echo Reply: change type from 8 (Echo Request) to 0 (Echo Reply)
    let mut reply = request.clone();
    reply[0] = 0; // Echo Reply type
    // Recompute ICMP checksum
    set_icmp_checksum(&mut reply);

    // Parse as DGRAM (no IP header)
    let result = parse_icmp_response(&reply, responder, our_id, true);
    assert!(result.is_some(), "PMTUD Echo Reply should parse");
    let parsed = result.unwrap();
    assert_eq!(parsed.response_type, IcmpResponseType::EchoReply);
    assert!(
        parsed.is_pmtud,
        "PMTUD Echo Reply should have is_pmtud=true"
    );
    assert_eq!(parsed.probe_id.ttl, 10);
    assert_eq!(parsed.probe_id.seq, 5);
}

#[test]
fn test_parse_normal_echo_reply_v4_dgram_is_not_pmtud() {
    let our_id = 0x1234;
    let probe_id = ProbeId::new(10, 5);
    let responder = IpAddr::V4(Ipv4Addr::new(8, 8, 8, 8));

    // Build a normal Echo Request
    let request = build_echo_request(
        our_id,
        probe_id.to_sequence(),
        56,
        false,
        None,
        false,
        7,
    );

    // Convert to Echo Reply
    let mut reply = request.clone();
    reply[0] = 0;
    set_icmp_checksum(&mut reply);

    let result = parse_icmp_response(&reply, responder, our_id, true);
    assert!(result.is_some());
    let parsed = result.unwrap();
    assert!(
        !parsed.is_pmtud,
        "Normal Echo Reply should have is_pmtud=false"
    );
}

#[test]
fn test_parse_pmtud_echo_reply_v4_raw() {
    let our_id = 0x1234;
    let probe_id = ProbeId::new(12, 3);
    let responder = IpAddr::V4(Ipv4Addr::new(8, 8, 4, 4));

    // Build PMTUD Echo Request
    let icmp = build_echo_request(our_id, probe_id.to_sequence(), 56, false, None, true, 7);

    // Wrap in an IPv4 header for RAW socket parsing
    let mut packet = vec![0u8; 20 + icmp.len()];
    packet[0] = 0x45; // Version 4, IHL 5
    packet[9] = 1; // Protocol: ICMP
    packet[20..].copy_from_slice(&icmp);

    // Convert ICMP type to Echo Reply
    packet[20] = 0;
    // Recompute ICMP checksum (starts at IP header offset 20)
    set_icmp_checksum(&mut packet[20..]);

    let result = parse_icmp_response(&packet, responder, our_id, false);
    assert!(result.is_some(), "PMTUD Echo Reply via RAW should parse");
    let parsed = result.unwrap();
    assert!(
        parsed.is_pmtud,
        "PMTUD Echo Reply via RAW should have is_pmtud=true"
    );
    assert_eq!(parsed.probe_id.ttl, 12);
    assert_eq!(parsed.probe_id.seq, 3);
}

#[test]
fn whole_ipv6_packets_are_walked() {
    let responder = IpAddr::V6(Ipv6Addr::new(0x2001, 0xdb8, 0, 0, 0, 0, 0, 1));
    let mut packet = vec![0u8; 40];
    packet[0] = 0x60;
    packet[6] = 0; // hop-by-hop options
    packet.extend_from_slice(&[58, 0, 0, 0, 0, 0, 0, 0]);
    packet.extend_from_slice(&[129, 0, 0, 0, 0x12, 0x34, 5, 7]);
    let parsed = parse_icmp_response_v6(&packet, responder, 0x1234).unwrap();
    assert_eq!(parsed.response_type, IcmpResponseType::EchoReply);
    assert_eq!((parsed.probe_id.ttl, parsed.probe_id.seq), (5, 7));
    assert_eq!(parsed.original_dest, Some(responder));
    assert!(parse_icmp_response_v6(&packet, responder, 0x1235).is_none());
    packet[40] = 17; // UDP behind the options
    assert!(parse_icmp_response_v6(&packet, responder, 0x1234).is_none());
}

#[test]
fn protected_packets_have_no_transport_header() {
    let mut packet = vec![0u8; 56];
    for (next_header, found) in [(17, Some((40, 17))), (50, None), (51, None), (59, None)] {
        packet[6] = next_header;
        assert_eq!(skip_ipv6_ext_headers_quoted(&packet), found);
    }
    packet[6] = 60; // destination options in front
    for (next_header, found) in [(6, Some((48, 6))), (50, None), (51, None)] {
        packet[40] = next_header;
        assert_eq!(skip_ipv6_ext_headers_quoted(&packet), found);
    }
}

#[test]
fn quoted_udp_probes_of_any_version_are_found() {
    let router = IpAddr::V4(Ipv4Addr::new(10, 0, 0, 1));
    for version in [0x00, 0x01] {
        let mut message = vec![11, 0, 0, 0, 0, 0, 0, 0];
        let mut quoted = vec![0u8; 20];
        quoted[0] = 0x45;
        quoted[8] = 1;
        quoted[9] = 17;
        quoted[16..20].copy_from_slice(&[8, 8, 8, 8]);
        quoted.extend_from_slice(&[0xC3, 0x50, 0x82, 0x9A, 0, 40, 0, 0]);
        quoted.extend_from_slice(&[0x0F, 0x2A, 0x54, 0x54, 0x4C, version]);
        message.extend_from_slice(&quoted);
        let parsed = parse_icmp_response(&message, router, 0x1234, true).unwrap();
        assert_eq!((parsed.probe_id.ttl, parsed.probe_id.seq), (15, 42));
        assert_eq!(parsed.src_port, Some(50000));
        assert_eq!(parsed.quoted_ttl, Some(1));
        assert_eq!(parsed.original_dest, Some(IpAddr::V4(Ipv4Addr::new(8, 8, 8, 8))));
    }
}
