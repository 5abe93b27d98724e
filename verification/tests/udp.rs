//! UDP and TCP probe payloads, and the numbering of probes.

use ttl::addr::{IpAddr, Ipv4Addr, Ipv6Addr};
use ttl::probe::rawip::internet_checksum;
use ttl::probe::tcp::{build_tcp_syn_sized, extract_probe_id_from_tcp};
use ttl::probe::udp::{
    build_udp_payload, build_udp_payload_sized, extract_probe_id_from_udp_payload,
    DEFAULT_UDP_PAYLOAD, MIN_UDP_PAYLOAD,
};
use ttl::state::{MplsLabel, ProbeId};

#[test]
fn test_udp_payload_roundtrip() {
    let probe_id = ProbeId::new(15, 42);
    let payload = build_udp_payload(probe_id);

    let extracted = extract_probe_id_from_udp_payload(&payload);
    assert!(extracted.is_some());

    let extracted = extracted.unwrap();
    assert_eq!(extracted.ttl, 15);
    assert_eq!(extracted.seq, 42);
}

#[test]
fn test_udp_payload_magic_validation() {
    // Test with invalid magic number
    let payload = vec![0x0F, 0x2A, 0x00, 0x00, 0x00, 0x00];
    let extracted = extract_probe_id_from_udp_payload(&payload);
    assert!(extracted.is_none());
}

#[test]
fn test_udp_payload_too_short() {
    let payload = vec![0x0F, 0x2A, 0x54]; // Only 3 bytes
    let extracted = extract_probe_id_from_udp_payload(&payload);
    assert!(extracted.is_none());
}

#[test]
fn the_version_of_a_payload_may_be_any() {
    for version in [0x00, 0x01, 0xFF] {
        let payload = [0x0F, 0x2A, 0x54, 0x54, 0x4C, version];
        let id = extract_probe_id_from_udp_payload(&payload).unwrap();
        assert_eq!((id.ttl, id.seq), (15, 42));
        assert!(extract_probe_id_from_udp_payload(&payload[..5]).is_none());
    }
    for wrong in 2..5 {
        let mut payload = [0x0F, 0x2A, 0x54, 0x54, 0x4C, 0x00];
        payload[wrong] ^= 1;
        assert!(extract_probe_id_from_udp_payload(&payload).is_none());
    }
}

#[test]
fn test_probe_id_encoding() {
    let id = ProbeId::new(15, 42);
    let seq = id.to_sequence();
    let decoded = ProbeId::from_sequence(seq);

    assert_eq!(decoded.ttl, 15);
    assert_eq!(decoded.seq, 42);
}

#[test]
fn probe_ids_and_sequences_are_one_to_one() {
    assert_eq!(ProbeId::new(15, 42).to_sequence(), 0x0f2a);
    for sequence in [0u16, 1, 0x00ff, 0x0100, 0xabcd, 0xffff] {
        assert_eq!(ProbeId::from_sequence(sequence).to_sequence(), sequence);
    }
}

#[test]
fn payload_bytes_are_exact() {
    let payload = build_udp_payload_sized(ProbeId::new(3, 7), 10);
    assert_eq!(payload, vec![3, 7, 0x54, 0x54, 0x4c, 0, 0, 1, 2, 3]);
    assert_eq!(build_udp_payload_sized(ProbeId::new(3, 7), 0).len(), MIN_UDP_PAYLOAD);
    assert_eq!(build_udp_payload(ProbeId::new(3, 7)).len(), DEFAULT_UDP_PAYLOAD);
    // The pattern starts again after 256 bytes.
    let long = build_udp_payload_sized(ProbeId::new(3, 7), 300);
    assert_eq!(long[261], 255);
    assert_eq!(long[262], 0);
}

#[test]
fn tcp_header_gives_its_probe() {
    let header = [0x9c, 0x40, 0x00, 0x50, 0x0c, 0x05, 0x00, 0x00];
    assert_eq!(extract_probe_id_from_tcp(&header), Some(ProbeId::new(12, 5)));
    assert_eq!(extract_probe_id_from_tcp(&header[..7]), None);
}

#[test]
fn label_stack_entry_fields() {
    // Label 0x12345, class 5, bottom of the stack, hop limit 64.
    let word: u32 = (0x12345 << 12) | (5 << 9) | (1 << 8) | 64;
    let label = MplsLabel::from_bytes(&word.to_be_bytes());
    assert_eq!(label.label, 0x12345);
    assert_eq!(label.exp, 5);
    assert!(label.bottom);
    assert_eq!(label.ttl, 64);
}

#[test]
fn syn_segments_carry_their_probe() {
    let src = IpAddr::V4(Ipv4Addr::new(10, 0, 0, 1));
    let dst = IpAddr::V4(Ipv4Addr::new(10, 0, 0, 2));
    let segment = build_tcp_syn_sized(ProbeId::new(9, 4), 50000, 443, src, dst, 3);
    assert_eq!(segment.len(), 23);
    assert_eq!(&segment[0..4], &[0xc3, 0x50, 0x01, 0xbb]);
    assert_eq!(&segment[4..8], &[9, 4, 0, 0]);
    assert_eq!(&segment[12..14], &[0x50, 0x02]);
    assert_eq!(extract_probe_id_from_tcp(&segment), Some(ProbeId::new(9, 4)));

    let mut covered = vec![10, 0, 0, 1, 10, 0, 0, 2, 0, 6, 0, 23];
    covered.extend_from_slice(&segment);
    assert_eq!(internet_checksum(&covered), 0);
}

#[test]
fn syn_segments_verify_over_ipv6() {
    let a = Ipv6Addr::new(0x2001, 0xdb8, 0, 0, 0, 0, 0, 1);
    let b = Ipv6Addr::new(0x2001, 0xdb8, 0, 0, 0, 0, 0, 2);
    let segment =
        build_tcp_syn_sized(ProbeId::new(1, 2), 50000, 80, IpAddr::V6(a), IpAddr::V6(b), 0);
    let mut covered: Vec<u8> = Vec::new();
    for s in a.segments().iter().chain(b.segments().iter()) {
        covered.extend_from_slice(&s.to_be_bytes());
    }
    covered.extend_from_slice(&[0, 0, 0, 20, 0, 0, 0, 6]);
    covered.extend_from_slice(&segment);
    assert_eq!(internet_checksum(&covered), 0);
}
