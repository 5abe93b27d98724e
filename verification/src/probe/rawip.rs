//! Raw IPv4 packet construction for `IP_HDRINCL` sending.
//!
//! Building the whole IPv4 header lets the TTL be written into the packet
//! itself instead of being set on the socket before an asynchronous send.
//!
//! With `IP_HDRINCL`, every header field is in network byte order except the
//! total length and the flags with the fragment offset, which some kernels
//! (macOS, NetBSD) expect in host byte order. The caller says which.

use crate::addr::Ipv4Addr;
use crate::wire::{
    checksum_spec, fold16, hi8, hi8_spec, lemma_fold16_small, lemma_stands_for_fold,
    lemma_word_sum_concat, lo8, lo8_spec, sum_words, word_sum,
};
use vstd::prelude::*;

verus! {

/// IPv4 header length with no options.
pub const IPV4_HEADER_SIZE: usize = 20;

/// UDP header length.
pub const UDP_HEADER_SIZE: usize = 8;

/// IPv4 protocol number of ICMP.
pub const IPPROTO_ICMP: u8 = 1;

/// IPv4 protocol number of TCP.
pub const IPPROTO_TCP: u8 = 6;

/// IPv4 protocol number of UDP.
pub const IPPROTO_UDP: u8 = 17;

/// One's-complement Internet checksum (RFC 1071) over `data`.
pub fn internet_checksum(data: &[u8]) -> (r: u16)
    ensures
        r == checksum_spec(data@),
{
    let sum: u16 = sum_words(0, data, Ghost(0));
    proof {
        lemma_stands_for_fold(sum, word_sum(data@));
    }
    0xFFFF - sum
}

/// The two bytes of `value` in network order.
pub open spec fn be_bytes(value: u16) -> Seq<u8> {
    seq![hi8_spec(value), lo8_spec(value)]
}

/// The two bytes of `value`, least significant first.
pub open spec fn le_bytes(value: u16) -> Seq<u8> {
    seq![lo8_spec(value), hi8_spec(value)]
}

/// `u16::to_ne_bytes`: the two bytes in the order of the machine, which is
/// big-endian or little-endian.
#[verifier::external_body]
fn ne_bytes(value: u16) -> (r: [u8; 2])
    ensures
        r@ == be_bytes(value) || r@ == le_bytes(value),
{
    value.to_ne_bytes()
}

/// The order in which the bytes of a number are laid out.
#[derive(Clone, Copy, Debug, PartialEq, Eq, Structural)]
pub enum ByteOrder {
    /// The most significant byte first, as on the network.
    Big,
    /// The least significant byte first.
    Little,
}

/// The two bytes of `value` in an order.
pub open spec fn ordered_bytes(value: u16, order: ByteOrder) -> Seq<u8> {
    match order {
        ByteOrder::Big => be_bytes(value),
        ByteOrder::Little => le_bytes(value),
    }
}

/// The two bytes of `value` in an order.
pub fn encode_in_order(value: u16, order: ByteOrder) -> (r: [u8; 2])
    ensures
        r@ == ordered_bytes(value, order),
{
    match order {
        ByteOrder::Big => {
            let r: [u8; 2] = [hi8(value), lo8(value)];
            assert(r@ =~= be_bytes(value));
            r
        },
        ByteOrder::Little => {
            let r: [u8; 2] = [lo8(value), hi8(value)];
            assert(r@ =~= le_bytes(value));
            r
        },
    }
}

/// The order of a machine, from how it lays out the number one.
pub fn order_shown(one: [u8; 2]) -> (r: ByteOrder)
    requires
        one@ == be_bytes(1) || one@ == le_bytes(1),
    ensures
        one@ == ordered_bytes(1, r),
{
    assert(be_bytes(1)[0] == 0 && le_bytes(1)[0] == 1);
    if one[0] == 1 {
        ByteOrder::Little
    } else {
        ByteOrder::Big
    }
}

/// The order of the fields that are byte-order-sensitive under `IP_HDRINCL`:
/// that of the network, or where the kernel wants host order that of the
/// machine.
fn len_off_order(host_order: bool) -> (r: ByteOrder)
    ensures
        !host_order ==> r == ByteOrder::Big,
{
    if host_order {
        order_shown(ne_bytes(1))
    } else {
        ByteOrder::Big
    }
}

/// Encodes a 16-bit header field that is byte-order-sensitive under
/// `IP_HDRINCL`. In host order the bytes come as the machine has them; which
/// order that is, only the machine decides.
pub fn encode_len_off(value: u16, host_order: bool) -> (r: [u8; 2])
    ensures
        !host_order ==> r@ == ordered_bytes(value, ByteOrder::Big),
        host_order ==> exists|order: ByteOrder| r@ == #[trigger] ordered_bytes(value, order),
{
    encode_in_order(value, len_off_order(host_order))
}

/// The header fields, with the two order-sensitive ones given as bytes.
pub open spec fn ipv4_header_spec(
    src: Ipv4Addr,
    dst: Ipv4Addr,
    protocol: u8,
    ttl: u8,
    tos: u8,
    len_bytes: Seq<u8>,
    identification: u16,
    off_bytes: Seq<u8>,
) -> Seq<u8> {
    seq![0x45u8, tos] + len_bytes + be_bytes(identification) + off_bytes + seq![
        ttl,
        protocol,
        0u8,
        0u8,
    ] + src.octets_spec() + dst.octets_spec()
}

/// Flags and fragment offset: only the don't-fragment bit can be set.
pub open spec fn frag_field(dont_fragment: bool) -> u16 {
    if dont_fragment {
        0x4000
    } else {
        0
    }
}

/// Whether two fields are encoded in one order: that of the network, or under
/// host order that of the machine.
pub open spec fn encoded_alike(
    len_bytes: Seq<u8>,
    len: u16,
    off_bytes: Seq<u8>,
    off: u16,
    host_order: bool,
) -> bool {
    exists|order: ByteOrder|
        (host_order || order == ByteOrder::Big) && len_bytes == #[trigger] ordered_bytes(len, order)
            && off_bytes == ordered_bytes(off, order)
}

/// Builds a 20-byte IPv4 header (no options) for `IP_HDRINCL` sending.
///
/// `tos` is the full ToS/DSCP byte. The header checksum is left zero: the
/// kernel computes it. `host_order` says whether the kernel wants the length
/// and the fragment field in host byte order.
pub fn build_ipv4_header(
    src: Ipv4Addr,
    dst: Ipv4Addr,
    protocol: u8,
    ttl: u8,
    tos: u8,
    total_len: u16,
    identification: u16,
    dont_fragment: bool,
    host_order: bool,
) -> (r: [u8; 20])
    ensures
        encoded_alike(
            r@.subrange(2, 4),
            total_len,
            r@.subrange(6, 8),
            frag_field(dont_fragment),
            host_order,
        ),
        r@ == ipv4_header_spec(
            src,
            dst,
            protocol,
            ttl,
            tos,
            r@.subrange(2, 4),
            identification,
            r@.subrange(6, 8),
        ),
{
    let order: ByteOrder = len_off_order(host_order);
    let h: [u8; 20] = build_ipv4_header_in_order(
        src,
        dst,
        protocol,
        ttl,
        tos,
        total_len,
        identification,
        dont_fragment,
        order,
    );
    assert(h@.subrange(2, 4) =~= ordered_bytes(total_len, order));
    assert(h@.subrange(6, 8) =~= ordered_bytes(frag_field(dont_fragment), order));
    h
}

/// Builds a 20-byte IPv4 header with the length and the fragment field in a
/// given order.
pub fn build_ipv4_header_in_order(
    src: Ipv4Addr,
    dst: Ipv4Addr,
    protocol: u8,
    ttl: u8,
    tos: u8,
    total_len: u16,
    identification: u16,
    dont_fragment: bool,
    order: ByteOrder,
) -> (r: [u8; 20])
    ensures
        r@ == ipv4_header_spec(
            src,
            dst,
            protocol,
            ttl,
            tos,
            ordered_bytes(total_len, order),
            identification,
            ordered_bytes(frag_field(dont_fragment), order),
        ),
{
    let frag_off: u16 = if dont_fragment {
        0x4000
    } else {
        0
    };
    let len_bytes: [u8; 2] = encode_in_order(total_len, order);
    let off_bytes: [u8; 2] = encode_in_order(frag_off, order);
    let s: [u8; 4] = src.octets();
    let d: [u8; 4] = dst.octets();
    let h: [u8; 20] = [
        0x45,
        tos,
        len_bytes[0],
        len_bytes[1],
        hi8(identification),
        lo8(identification),
        off_bytes[0],
        off_bytes[1],
        ttl,
        protocol,
        0,
        0,
        s[0],
        s[1],
        s[2],
        s[3],
        d[0],
        d[1],
        d[2],
        d[3],
    ];
    proof {
        assert(h@ =~= ipv4_header_spec(
            src,
            dst,
            protocol,
            ttl,
            tos,
            len_bytes@,
            identification,
            off_bytes@,
        ));
    }
    h
}

/// The pseudo-header that a UDP checksum covers beside the datagram.
pub open spec fn udp_pseudo_header(src: Ipv4Addr, dst: Ipv4Addr, udp_len: int) -> Seq<u8> {
    src.octets_spec() + dst.octets_spec() + seq![0u8, IPPROTO_UDP] + be_bytes(
        (udp_len % 65536) as u16,
    )
}

/// Computes the IPv4 UDP checksum over pseudo-header, UDP header and payload.
///
/// `udp` is the full datagram with its checksum field set to zero. Its length
/// enters the pseudo-header as 16 bits.
pub fn udp_checksum_v4(src: Ipv4Addr, dst: Ipv4Addr, udp: &[u8]) -> (r: u16)
    ensures
        r == checksum_spec(udp_pseudo_header(src, dst, udp@.len() as int) + udp@),
{
    let len16: u16 = (udp.len() % 65536) as u16;
    let s: [u8; 4] = src.octets();
    let d: [u8; 4] = dst.octets();
    let pseudo: [u8; 12] = [
        s[0],
        s[1],
        s[2],
        s[3],
        d[0],
        d[1],
        d[2],
        d[3],
        0,
        IPPROTO_UDP,
        hi8(len16),
        lo8(len16),
    ];
    let head: u16 = sum_words(0, &pseudo, Ghost(0));
    let sum: u16 = sum_words(head, udp, Ghost(word_sum(pseudo@)));
    proof {
        let header = udp_pseudo_header(src, dst, udp@.len() as int);
        assert(pseudo@ =~= header);
        lemma_word_sum_concat(header, udp@);
        lemma_stands_for_fold(sum, word_sum(header) + word_sum(udp@));
    }
    0xFFFF - sum
}

/// A UDP datagram whose checksum field holds `checksum`.
pub open spec fn udp_datagram_with(
    src_port: u16,
    dst_port: u16,
    payload: Seq<u8>,
    checksum: u16,
) -> Seq<u8> {
    be_bytes(src_port) + be_bytes(dst_port) + be_bytes(((8 + payload.len()) % 65536) as u16)
        + be_bytes(checksum) + payload
}

/// The checksum of a datagram; a computed zero is sent as `0xFFFF`, as zero
/// would mean that there is none (RFC 768).
pub open spec fn udp_sent_checksum(
    src: Ipv4Addr,
    dst: Ipv4Addr,
    src_port: u16,
    dst_port: u16,
    payload: Seq<u8>,
) -> u16 {
    let zeroed = udp_datagram_with(src_port, dst_port, payload, 0);
    let sum = checksum_spec(udp_pseudo_header(src, dst, zeroed.len() as int) + zeroed);
    if sum == 0 {
        0xFFFF
    } else {
        sum
    }
}

/// The full datagram.
pub open spec fn udp_datagram_spec(
    src: Ipv4Addr,
    dst: Ipv4Addr,
    src_port: u16,
    dst_port: u16,
    payload: Seq<u8>,
) -> Seq<u8> {
    udp_datagram_with(
        src_port,
        dst_port,
        payload,
        udp_sent_checksum(src, dst, src_port, dst_port, payload),
    )
}

/// Builds a full UDP datagram (header and payload) with a valid IPv4
/// checksum. The length field holds the low 16 bits of the length.
pub fn build_udp_datagram(
    src: Ipv4Addr,
    dst: Ipv4Addr,
    src_port: u16,
    dst_port: u16,
    payload: &[u8],
) -> (r: Vec<u8>)
    requires
        payload@.len() + 8 <= usize::MAX,
    ensures
        r@ == udp_datagram_spec(src, dst, src_port, dst_port, payload@),
{
    let udp_len: usize = UDP_HEADER_SIZE + payload.len();
    let len16: u16 = (udp_len % 65536) as u16;
    let mut dgram: Vec<u8> = Vec::with_capacity(udp_len);
    dgram.push(hi8(src_port));
    dgram.push(lo8(src_port));
    dgram.push(hi8(dst_port));
    dgram.push(lo8(dst_port));
    dgram.push(hi8(len16));
    dgram.push(lo8(len16));
    dgram.push(0);
    dgram.push(0);
    dgram.extend_from_slice(payload);
    proof {
        assert(dgram@ =~= udp_datagram_with(src_port, dst_port, payload@, 0));
    }
    let computed: u16 = udp_checksum_v4(src, dst, dgram.as_slice());
    let cksum: u16 = if computed == 0 {
        0xFFFF
    } else {
        computed
    };
    dgram.set(6, hi8(cksum));
    dgram.set(7, lo8(cksum));
    assert(dgram@ =~= udp_datagram_with(src_port, dst_port, payload@, cksum));
    dgram
}

/// Assembles a complete IPv4 packet: hand-built header and transport bytes.
///
/// `transport` is the fully formed transport message with its own checksum.
/// The header's length field holds the low 16 bits of the length.
pub fn build_ipv4_packet(
    src: Ipv4Addr,
    dst: Ipv4Addr,
    protocol: u8,
    ttl: u8,
    tos: u8,
    dont_fragment: bool,
    transport: &[u8],
    host_order: bool,
) -> (r: Vec<u8>)
    requires
        transport@.len() + 20 <= usize::MAX,
    ensures
        is_ipv4_packet(
            r@,
            src,
            dst,
            protocol,
            ttl,
            tos,
            dont_fragment,
            transport@,
            host_order,
        ),
{
    let total_len: u16 = ((IPV4_HEADER_SIZE + transport.len()) % 65536) as u16;
    let header: [u8; 20] = build_ipv4_header(
        src,
        dst,
        protocol,
        ttl,
        tos,
        total_len,
        0,
        dont_fragment,
        host_order,
    );
    let mut packet: Vec<u8> = Vec::with_capacity(IPV4_HEADER_SIZE + transport.len());
    packet.extend_from_slice(&header);
    packet.extend_from_slice(transport);
    proof {
        assert(packet@ =~= header@ + transport@);
        assert(packet@.subrange(2, 4) =~= header@.subrange(2, 4));
        assert(packet@.subrange(6, 8) =~= header@.subrange(6, 8));
    }
    packet
}

/// Whether `packet` is the IPv4 packet with these header fields and this
/// transport message.
pub open spec fn is_ipv4_packet(
    packet: Seq<u8>,
    src: Ipv4Addr,
    dst: Ipv4Addr,
    protocol: u8,
    ttl: u8,
    tos: u8,
    dont_fragment: bool,
    transport: Seq<u8>,
    host_order: bool,
) -> bool {
    &&& encoded_alike(
        packet.subrange(2, 4),
        ((20 + transport.len()) % 65536) as u16,
        packet.subrange(6, 8),
        frag_field(dont_fragment),
        host_order,
    )
    &&& packet == ipv4_header_spec(
        src,
        dst,
        protocol,
        ttl,
        tos,
        packet.subrange(2, 4),
        0,
        packet.subrange(6, 8),
    ) + transport
}

/// Writing a word into a zero field at an even place adds it to the sum.
pub proof fn lemma_word_sum_fill(data: Seq<u8>, k: int, value: u16)
    requires
        0 <= k,
        k % 2 == 0,
        k + 2 <= data.len(),
        data[k] == 0,
        data[k + 1] == 0,
    ensures
        word_sum(data.update(k, hi8_spec(value)).update(k + 1, lo8_spec(value))) == word_sum(data)
            + value,
    decreases k,
{
    let filled = data.update(k, hi8_spec(value)).update(k + 1, lo8_spec(value));
    if k == 0 {
        assert(filled.skip(2) =~= data.skip(2));
    } else {
        lemma_word_sum_fill(data.skip(2), k - 2, value);
        assert(filled.skip(2) =~= data.skip(2).update(k - 2, hi8_spec(value)).update(
            k - 1,
            lo8_spec(value),
        ));
    }
}

/// A sum and the complement of its fold fold to all ones.
pub proof fn lemma_fold16_complement(s: nat)
    ensures
        fold16((s + 0xFFFF - fold16(s)) as nat) == 0xFFFF,
        fold16(s) == 0xFFFF ==> fold16((s + 0xFFFF) as nat) == 0xFFFF,
{
    if s == 0 {
        lemma_fold16_small(0xFFFF);
    } else {
        let q = (s - 1) / 65535;
        let r = (s - 1) % 65535;
        vstd::arithmetic::div_mod::lemma_fundamental_div_mod(s - 1, 65535);
        let total = s + 0xFFFF - fold16(s);
        assert(total == 65535 * (q + 1));
        assert(total - 1 == 65535 * q + 65534);
        vstd::arithmetic::div_mod::lemma_mod_multiples_vanish(q, 65534, 65535);
        if fold16(s) == 0xFFFF {
            assert(s + 0xFFFF - 1 == 65535 * (q + 1) + 65534);
            vstd::arithmetic::div_mod::lemma_mod_multiples_vanish(q + 1, 65534, 65535);
        }
    }
}

/// Data whose checksum field (a zero word at an even place) is filled with
/// its checksum sums to all ones, so its own checksum is zero.
pub proof fn law_checksum_self_verifies(data: Seq<u8>, k: int)
    requires
        0 <= k,
        k % 2 == 0,
        k + 2 <= data.len(),
        data[k] == 0,
        data[k + 1] == 0,
    ensures
        checksum_spec(
            data.update(k, hi8_spec(checksum_spec(data))).update(
                k + 1,
                lo8_spec(checksum_spec(data)),
            ),
        ) == 0,
{
    lemma_word_sum_fill(data, k, checksum_spec(data));
    lemma_fold16_complement(word_sum(data));
}

/// A built UDP datagram verifies: with its pseudo-header it sums to all ones,
/// and its checksum field is never zero.
pub proof fn law_udp_datagram_verifies(
    src: Ipv4Addr,
    dst: Ipv4Addr,
    src_port: u16,
    dst_port: u16,
    payload: Seq<u8>,
)
    ensures
        ({
            let dgram = udp_datagram_spec(src, dst, src_port, dst_port, payload);
            &&& checksum_spec(udp_pseudo_header(src, dst, dgram.len() as int) + dgram) == 0
            &&& udp_sent_checksum(src, dst, src_port, dst_port, payload) != 0
        }),
{
    let zeroed = udp_datagram_with(src_port, dst_port, payload, 0);
    let pseudo = udp_pseudo_header(src, dst, zeroed.len() as int);
    let all = pseudo + zeroed;
    let sent = udp_sent_checksum(src, dst, src_port, dst_port, payload);
    let dgram = udp_datagram_spec(src, dst, src_port, dst_port, payload);
    assert(pseudo + dgram =~= all.update(18, hi8_spec(sent)).update(19, lo8_spec(sent)));
    lemma_word_sum_fill(all, 18, sent);
    lemma_fold16_complement(word_sum(all));
}

} // verus!
