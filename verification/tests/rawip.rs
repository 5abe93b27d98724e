//! Raw IPv4 packets.

use pnet::packet::ipv4::Ipv4Packet;
use ttl::addr::Ipv4Addr;
use ttl::probe::rawip::{
    build_ipv4_header, build_ipv4_header_in_order, build_ipv4_packet, build_udp_datagram,
    encode_in_order, encode_len_off, internet_checksum, order_shown, udp_checksum_v4, ByteOrder,
    IPPROTO_ICMP, IPPROTO_TCP, IPPROTO_UDP, IPV4_HEADER_SIZE, UDP_HEADER_SIZE,
};

/// Whether the kernel of this machine takes the length in its own order.
const HDRINCL_HOST_ORDER_LEN_OFF: bool = false;

#[test]
fn test_internet_checksum_known_vector() {
    let header: [u8; 20] = [
        0x45, 0x00, 0x00, 0x73, 0x00, 0x00, 0x40, 0x00, 0x40, 0x11, 0x00, 0x00, 0xc0, 0xa8,
        0x00, 0x01, 0xc0, 0xa8, 0x00, 0xc7,
    ];
    assert_eq!(internet_checksum(&header), 0xb861);
}

#[test]
fn test_internet_checksum_self_verifies() {
    // Inserting the checksum back into the data and re-summing yields 0.
    let mut data = vec![0x45u8, 0x00, 0x00, 0x28, 0x12, 0x34, 0x40, 0x00, 0x40, 0x06];
    let ck = internet_checksum(&data);
    data.extend_from_slice(&ck.to_be_bytes());
    // Re-checksum including the inserted field => 0x0000.
    assert_eq!(internet_checksum(&data), 0x0000);
}

#[test]
fn test_encode_len_off_network_order() {
    assert_eq!(encode_len_off(0x0028, false), [0x00, 0x28]);
    assert_eq!(encode_len_off(0x4000, false), [0x40, 0x00]);
}

#[test]
fn test_encode_len_off_host_order_little_endian() {
    // On a little-endian host, "host order" is byte-swapped from network order.
    assert_eq!(encode_len_off(0x0028, true), [0x28, 0x00]);
    assert_eq!(encode_len_off(0x4000, true), [0x00, 0x40]);
}

#[test]
fn test_encode_len_off_branches_match_intrinsics() {
    for v in [0u16, 1, 0x0028, 0x4000, 0xABCD, 0xFFFF] {
        assert_eq!(encode_len_off(v, false), v.to_be_bytes());
        assert_eq!(encode_len_off(v, true), v.to_ne_bytes());
    }
}

#[test]
fn test_build_ipv4_header_fields() {
    let src = Ipv4Addr::new(192, 168, 1, 10);
    let dst = Ipv4Addr::new(8, 8, 8, 8);
    let h = build_ipv4_header(src, dst, IPPROTO_ICMP, 7, 0xb8, 84, 0, false, HDRINCL_HOST_ORDER_LEN_OFF);

    assert_eq!(h[0], 0x45, "version 4, IHL 5");
    assert_eq!(h[1], 0xb8, "ToS byte");
    assert_eq!(h[8], 7, "TTL");
    assert_eq!(h[9], IPPROTO_ICMP, "protocol");
    assert_eq!(&h[12..16], &src.octets(), "source address");
    assert_eq!(&h[16..20], &dst.octets(), "dest address");
    assert_eq!(&h[10..12], &[0, 0], "checksum left zero for kernel");
    // total_len encoded per the platform's byte order.
    assert_eq!(&h[2..4], &encode_len_off(84, HDRINCL_HOST_ORDER_LEN_OFF));
}

#[test]
fn test_build_ipv4_header_dont_fragment_bit() {
    let src = Ipv4Addr::new(10, 0, 0, 1);
    let dst = Ipv4Addr::new(10, 0, 0, 2);
    let with_df = build_ipv4_header(src, dst, IPPROTO_UDP, 64, 0, 100, 0, true, HDRINCL_HOST_ORDER_LEN_OFF);
    let without_df = build_ipv4_header(src, dst, IPPROTO_UDP, 64, 0, 100, 0, false, HDRINCL_HOST_ORDER_LEN_OFF);
    assert_eq!(
        &with_df[6..8],
        &encode_len_off(0x4000, HDRINCL_HOST_ORDER_LEN_OFF)
    );
    assert_eq!(
        &without_df[6..8],
        &encode_len_off(0x0000, HDRINCL_HOST_ORDER_LEN_OFF)
    );
}

#[test]
fn test_udp_datagram_layout_and_checksum() {
    let src = Ipv4Addr::new(192, 168, 1, 10);
    let dst = Ipv4Addr::new(8, 8, 8, 8);
    let payload = b"hello probe";
    let dgram = build_udp_datagram(src, dst, 33434, 33500, payload);

    assert_eq!(dgram.len(), UDP_HEADER_SIZE + payload.len());
    assert_eq!(&dgram[0..2], &33434u16.to_be_bytes(), "src port");
    assert_eq!(&dgram[2..4], &33500u16.to_be_bytes(), "dst port");
    assert_eq!(
        &dgram[4..6],
        &((UDP_HEADER_SIZE + payload.len()) as u16).to_be_bytes(),
        "length"
    );
    assert_eq!(&dgram[8..], payload, "payload copied");
    assert_ne!(&dgram[6..8], &[0, 0], "checksum present");

    // Verify end-to-end: summing the pseudo-header + full datagram (including the
    // now-filled checksum field) with an independent checksum must fold to zero.
    let mut verify = Vec::new();
    verify.extend_from_slice(&src.octets());
    verify.extend_from_slice(&dst.octets());
    verify.push(0);
    verify.push(IPPROTO_UDP);
    verify.extend_from_slice(&(dgram.len() as u16).to_be_bytes());
    verify.extend_from_slice(&dgram);
    assert_eq!(internet_checksum(&verify), 0x0000, "UDP checksum verifies");
}

#[test]
fn test_build_ipv4_packet_assembly() {
    let src = Ipv4Addr::new(1, 2, 3, 4);
    let dst = Ipv4Addr::new(5, 6, 7, 8);
    let transport = vec![0xAAu8; 16];
    let pkt = build_ipv4_packet(src, dst, IPPROTO_TCP, 12, 0, true, &transport, HDRINCL_HOST_ORDER_LEN_OFF);

    assert_eq!(pkt.len(), IPV4_HEADER_SIZE + transport.len());
    assert_eq!(pkt[8], 12, "TTL in header");
    assert_eq!(pkt[9], IPPROTO_TCP, "protocol in header");
    assert_eq!(
        &pkt[IPV4_HEADER_SIZE..],
        &transport[..],
        "transport appended"
    );
    assert_eq!(
        &pkt[2..4],
        &encode_len_off(
            (IPV4_HEADER_SIZE + transport.len()) as u16,
            HDRINCL_HOST_ORDER_LEN_OFF
        ),
        "total length"
    );
}

#[test]
fn test_header_parses_with_pnet_on_network_order() {
    let src = Ipv4Addr::new(192, 168, 0, 1);
    let dst = Ipv4Addr::new(9, 9, 9, 9);
    let transport = vec![0u8; 12];
    let pkt = build_ipv4_packet(src, dst, IPPROTO_ICMP, 5, 0x20, false, &transport, HDRINCL_HOST_ORDER_LEN_OFF);

    let parsed = Ipv4Packet::new(&pkt).expect("valid IPv4 packet");
    assert_eq!(parsed.get_version(), 4);
    assert_eq!(parsed.get_header_length(), 5);
    assert_eq!(parsed.get_ttl(), 5);
    assert_eq!(parsed.get_next_level_protocol().0, IPPROTO_ICMP);
    assert_eq!(
        parsed.get_total_length() as usize,
        IPV4_HEADER_SIZE + transport.len()
    );
    assert_eq!(parsed.get_source().octets(), src.octets());
    assert_eq!(parsed.get_destination().octets(), dst.octets());
    assert_eq!(parsed.get_dscp(), 0x20 >> 2);
}

#[test]
fn header_in_host_order_swaps_length_and_offset() {
    let src = Ipv4Addr::new(10, 0, 0, 1);
    let dst = Ipv4Addr::new(10, 0, 0, 2);
    let h = build_ipv4_header(src, dst, IPPROTO_TCP, 3, 0, 0x0154, 0x0a0b, true, true);
    assert_eq!(&h[2..4], &0x0154u16.to_ne_bytes());
    assert_eq!(&h[4..6], &[0x0a, 0x0b]);
    assert_eq!(&h[6..8], &0x4000u16.to_ne_bytes());
}

#[test]
fn the_order_of_a_machine_decides_both_fields() {
    assert_eq!(order_shown([0, 1]), ByteOrder::Big);
    assert_eq!(order_shown([1, 0]), ByteOrder::Little);
    assert_eq!(encode_in_order(0x0028, ByteOrder::Little), [0x28, 0x00]);
    assert_eq!(encode_in_order(0x0028, ByteOrder::Big), [0x00, 0x28]);
    let src = Ipv4Addr::new(10, 0, 0, 1);
    let dst = Ipv4Addr::new(10, 0, 0, 2);
    let header = |order| {
        build_ipv4_header_in_order(src, dst, IPPROTO_TCP, 3, 0, 0x0154, 0x0a0b, true, order)
    };
    let little = header(ByteOrder::Little);
    assert_eq!((&little[2..4], &little[6..8]), (&[0x54, 0x01][..], &[0x00, 0x40][..]));
    let big = header(ByteOrder::Big);
    assert_eq!((&big[2..4], &big[6..8]), (&[0x01, 0x54][..], &[0x40, 0x00][..]));
    assert_eq!(&little[4..6], &big[4..6]);
    let own = header(order_shown(1u16.to_ne_bytes()));
    assert_eq!(own, build_ipv4_header(src, dst, IPPROTO_TCP, 3, 0, 0x0154, 0x0a0b, true, true));
}

#[test]
fn udp_checksum_is_exact() {
    // 10.0.0.1 -> 10.0.0.2, ports 1 and 2, no payload.
    let udp = [0u8, 1, 0, 2, 0, 8, 0, 0];
    let sum = udp_checksum_v4(Ipv4Addr::new(10, 0, 0, 1), Ipv4Addr::new(10, 0, 0, 2), &udp);
    // 0a00+0001+0a00+0002+0011+0008+0001+0002+0008 = 1427
    assert_eq!(sum, !0x1427u16);
}
