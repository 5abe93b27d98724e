//! Building of echo requests.

use ttl::addr::Ipv6Addr;
use ttl::probe::icmp::{
    build_echo_request, echo_checksum_v6, identifier_of_process, DEFAULT_PAYLOAD_SIZE,
    ICMP_HEADER_SIZE, MIN_PAYLOAD_SIZE, PMTUD_MARKER,
};

#[test]
fn test_build_echo_request() {
    let packet = build_echo_request(1234, 5678, DEFAULT_PAYLOAD_SIZE, false, None, false, 7);
    assert_eq!(packet.len(), ICMP_HEADER_SIZE + DEFAULT_PAYLOAD_SIZE);
    assert_eq!(packet[0], 8); // Echo Request type
    assert_eq!(packet[1], 0); // Code
}

#[test]
fn test_build_echo_request_ipv6() {
    let src = Ipv6Addr::new(0x2001, 0xdb8, 0, 0, 0, 0, 0, 1);
    let dest = Ipv6Addr::new(0x2001, 0xdb8, 0, 0, 0, 0, 0, 2);
    let packet = build_echo_request(
        1234,
        5678,
        DEFAULT_PAYLOAD_SIZE,
        true,
        Some((src, dest)),
        false,
        7,
    );
    assert_eq!(packet.len(), ICMP_HEADER_SIZE + DEFAULT_PAYLOAD_SIZE);
    assert_eq!(packet[0], 128); // ICMPv6 Echo Request type
    assert_eq!(packet[1], 0); // Code
}

#[test]
fn test_build_echo_request_ipv6_with_checksum() {
    let src = Ipv6Addr::new(0x2001, 0xdb8, 0, 0, 0, 0, 0, 1);
    let dest = Ipv6Addr::new(0x2001, 0xdb8, 0, 0, 0, 0, 0, 2);
    let packet = build_echo_request(
        1234,
        5678,
        DEFAULT_PAYLOAD_SIZE,
        true,
        Some((src, dest)),
        false,
        7,
    );
    assert_eq!(packet.len(), ICMP_HEADER_SIZE + DEFAULT_PAYLOAD_SIZE);
    assert_eq!(packet[0], 128); // ICMPv6 Echo Request type
    assert_eq!(packet[1], 0); // Code
    // Checksum should be non-zero
    let cksum = u16::from_be_bytes([packet[2], packet[3]]);
    assert_ne!(cksum, 0, "ICMPv6 checksum should be computed");
}

#[test]
fn test_icmp_ipv6_checksum_known_value() {
    let src_addr = Ipv6Addr::new(0xfe80, 0, 0, 0, 0x811, 0x3f6, 0x7601, 0x6c3f);
    let dest_addr = Ipv6Addr::new(0xfe80, 0, 0, 0, 0x1c8d, 0x7d69, 0xd0b6, 0x8182);
    let bytes = [
        0x88, 0x00, 0x73, 0x6a, 0x40, 0x00, 0x00, 0x00, 0xfe, 0x80, 0x00, 0x00, 0x00, 0x00,
        0x00, 0x00, 0x08, 0x11, 0x03, 0xf6, 0x76, 0x01, 0x6c, 0x3f,
    ];
    assert_eq!(29546, echo_checksum_v6(&bytes, src_addr, dest_addr));
}

#[test]
fn test_build_echo_request_custom_size() {
    // Test larger payload
    let packet = build_echo_request(1234, 5678, 1400, false, None, false, 7);
    assert_eq!(packet.len(), ICMP_HEADER_SIZE + 1400);

    // Test minimum payload
    let packet = build_echo_request(1234, 5678, 0, false, None, false, 7);
    assert_eq!(packet.len(), ICMP_HEADER_SIZE + MIN_PAYLOAD_SIZE);
}

#[test]
fn test_pmtud_marker_set_in_payload() {
    let packet = build_echo_request(1234, 5678, DEFAULT_PAYLOAD_SIZE, false, None, true, 7);
    // Payload starts at byte 8 (ICMP header size)
    // PMTUD marker should be at payload byte 8 = packet byte 16
    assert_eq!(
        packet[16], PMTUD_MARKER,
        "PMTUD marker should be set at payload[8]"
    );
}

#[test]
fn test_normal_probe_has_no_pmtud_marker() {
    let packet = build_echo_request(1234, 5678, DEFAULT_PAYLOAD_SIZE, false, None, false, 7);
    // Normal probe: payload[8] should be 0x00 (pattern fill index 0)
    assert_eq!(
        packet[16], 0x00,
        "Normal probe should not have PMTUD marker"
    );
}

#[test]
fn test_pmtud_marker_with_min_payload() {
    // MIN_PAYLOAD_SIZE is 8, so payload[8] doesn't exist; marker is skipped
    let packet = build_echo_request(1234, 5678, 0, false, None, true, 7);
    assert_eq!(packet.len(), ICMP_HEADER_SIZE + MIN_PAYLOAD_SIZE);
    // No panic, marker gracefully skipped when payload too small
}

#[test]
fn echo_request_bytes_are_exact() {
    let packet = build_echo_request(0x1234, 0x0507, 12, false, None, true, 0x01020304);
    assert_eq!(packet.len(), 20);
    assert_eq!(&packet[4..8], &[0x12, 0x34, 0x05, 0x07]);
    assert_eq!(&packet[8..12], &[0x12, 0x34, 0x05, 0x07]);
    assert_eq!(&packet[12..16], &[1, 2, 3, 4]);
    assert_eq!(packet[16], PMTUD_MARKER);
    // The words of the whole message sum to all ones.
    let mut sum: u32 = 0;
    for pair in packet.chunks(2) {
        sum += u16::from_be_bytes([pair[0], pair[1]]) as u32;
    }
    while sum >> 16 != 0 {
        sum = (sum & 0xffff) + (sum >> 16);
    }
    assert_eq!(sum, 0xffff);
}

#[test]
fn identifier_is_the_low_half_of_the_process_id() {
    assert_eq!(identifier_of_process(0x12345), 0x2345);
    assert_eq!(identifier_of_process(77), 77);
}
