//! What stands where in the packets that are sent and in those that come back.

use crate::addr::{IpAddr, Ipv4Addr, Ipv6Addr};
use crate::probe::correlate::{
    message_response_v6, packet_response_v6, parse_icmp_extensions_with_length,
    validate_icmp_checksum,
};
use crate::probe::icmp::{
    build_echo_request, echo_checksum_v6, echo_payload, identifier_of_process,
    law_echo_request_verifies, segment_sum, without_checksum,
};
use crate::probe::interface::InterfaceInfo;
use crate::probe::laws::{entry_bytes, law_label_stack_read_back, stack_bytes, stackable};
use crate::probe::quoted::{
    first_label_stack, identify_echo, is_pmtud_payload, read_label_stack,
    skip_ipv6_ext_headers_quoted, walk_headers,
};
use crate::probe::rawip::{
    be_bytes, build_ipv4_header_in_order, build_ipv4_packet, build_udp_datagram, encode_in_order,
    internet_checksum, order_shown, ByteOrder,
};
use crate::probe::tcp::{build_tcp_syn_sized, extract_probe_id_from_tcp, segment_bytes};
use crate::probe::udp::{
    build_udp_payload, build_udp_payload_sized, extract_probe_id_from_udp_payload,
};
use crate::state::{MplsLabel, ProbeId};
use crate::wire::{be16_spec, fold16, word_sum};
use vstd::prelude::*;

verus! {

/// An echo request says what it is in its first byte, carries identifier and
/// sequence number behind the checksum, high bytes first, and repeats both at
/// the start of its payload, followed by the time. A path-MTU probe has its
/// mark behind that; the payload is as long as asked for, but never shorter
/// than eight bytes.
pub proof fn law_echo_request_laid_out(
    identifier: u16,
    sequence: u16,
    payload_size: usize,
    ipv6: bool,
    addrs: Option<(Ipv6Addr, Ipv6Addr)>,
    pmtud: bool,
    timestamp: u32,
    r: Vec<u8>,
)
    requires
        call_ensures(
            build_echo_request,
            (identifier, sequence, payload_size, ipv6, addrs, pmtud, timestamp),
            r,
        ),
    ensures
        r@.len() == 8 + (if payload_size < 8 {
            8
        } else {
            payload_size + 0
        }),
        r@[0] == (if ipv6 {
            128u8
        } else {
            8
        }),
        r@[1] == 0,
        r@[4] * 256 + r@[5] == identifier,
        r@[6] * 256 + r@[7] == sequence,
        r@[8] * 256 + r@[9] == identifier,
        r@[10] * 256 + r@[11] == sequence,
        r@[12] * 0x100_0000 + r@[13] * 0x1_0000 + r@[14] * 0x100 + r@[15] == timestamp,
        payload_size > 8 ==> r@[16] == (if pmtud {
            0x50u8
        } else {
            0
        }),
        forall|i: int| 17 <= i < r@.len() ==> #[trigger] r@[i] == (i - 16) % 256,
        ipv6 && addrs is None ==> r@[2] == 0 && r@[3] == 0,
{
    let payload = echo_payload(identifier, sequence, payload_size as int, pmtud, timestamp);
    assert forall|i: int| 17 <= i < r@.len() implies #[trigger] r@[i] == (i - 16) % 256 by {
        assert(r@[i] == payload[i - 8]);
    }
    assert(r@[8] == payload[0] && r@[9] == payload[1] && r@[10] == payload[2] && r@[11]
        == payload[3]);
    assert(r@[12] == payload[4] && r@[13] == payload[5] && r@[14] == payload[6] && r@[15]
        == payload[7]);
    if payload_size > 8 {
        assert(r@[16] == payload[8]);
    }
    assert(timestamp == (timestamp / 0x100_0000) * 0x100_0000 + ((timestamp / 0x1_0000) % 256)
        * 0x1_0000 + ((timestamp / 0x100) % 256) * 0x100 + timestamp % 256) by (bit_vector);
}

/// An IPv4 packet starts with a header of twenty bytes: version and length,
/// type of service, then, in network order, the whole length and whether it
/// may be fragmented, TTL and protocol, and the two addresses, high bytes
/// first. What is carried follows.
pub proof fn law_ipv4_packet_laid_out(
    src: Ipv4Addr,
    dst: Ipv4Addr,
    protocol: u8,
    ttl: u8,
    tos: u8,
    dont_fragment: bool,
    transport: &[u8],
    r: Vec<u8>,
)
    requires
        call_ensures(
            build_ipv4_packet,
            (src, dst, protocol, ttl, tos, dont_fragment, transport, false),
            r,
        ),
        transport@.len() + 20 <= 65535,
    ensures
        r@.len() == 20 + transport@.len(),
        r@.skip(20) == transport@,
        r@[0] == 0x45,
        r@[1] == tos,
        r@[2] * 256 + r@[3] == r@.len(),
        r@[4] == 0 && r@[5] == 0,
        r@[6] == (if dont_fragment {
            0x40u8
        } else {
            0
        }),
        r@[7] == 0,
        r@[8] == ttl,
        r@[9] == protocol,
        r@[12] * 0x100_0000 + r@[13] * 0x1_0000 + r@[14] * 0x100 + r@[15] == src.bits,
        r@[16] * 0x100_0000 + r@[17] * 0x1_0000 + r@[18] * 0x100 + r@[19] == dst.bits,
{
    crate::probe::laws::lemma_packet_len(
        r@,
        src,
        dst,
        protocol,
        ttl,
        tos,
        dont_fragment,
        transport@,
        false,
    );
    let a = src.bits;
    let b = dst.bits;
    lemma_four_bytes(a);
    lemma_four_bytes(b);
    assert(r@[2] == r@.subrange(2, 4)[0] && r@[3] == r@.subrange(2, 4)[1]);
    assert(r@[6] == r@.subrange(6, 8)[0] && r@[7] == r@.subrange(6, 8)[1]);
    let so = src.octets_spec();
    let d = dst.octets_spec();
    assert(r@[12] == so[0] && r@[13] == so[1] && r@[14] == so[2] && r@[15] == so[3]);
    assert(r@[16] == d[0] && r@[17] == d[1] && r@[18] == d[2] && r@[19] == d[3]);
}

/// A number is the sum of its four bytes.
proof fn lemma_four_bytes(v: u32)
    ensures
        v == (v / 0x100_0000) * 0x100_0000 + ((v / 0x1_0000) % 256) * 0x1_0000 + ((v / 0x100) % 256)
            * 0x100 + v % 256,
{
    assert(v == (v / 0x100_0000) * 0x100_0000 + ((v / 0x1_0000) % 256) * 0x1_0000 + ((v / 0x100)
        % 256) * 0x100 + v % 256) by (bit_vector);
}

/// A UDP datagram starts with its ports and its length, high bytes first, and
/// a checksum that is never zero. The payload follows.
pub proof fn law_udp_datagram_laid_out(
    src: Ipv4Addr,
    dst: Ipv4Addr,
    src_port: u16,
    dst_port: u16,
    payload: &[u8],
    r: Vec<u8>,
)
    requires
        call_ensures(build_udp_datagram, (src, dst, src_port, dst_port, payload), r),
        payload@.len() + 8 <= 65535,
    ensures
        r@.len() == payload@.len() + 8,
        r@[0] * 256 + r@[1] == src_port,
        r@[2] * 256 + r@[3] == dst_port,
        r@[4] * 256 + r@[5] == r@.len(),
        r@[6] != 0 || r@[7] != 0,
        r@.skip(8) == payload@,
{
    crate::probe::rawip::law_udp_datagram_verifies(src, dst, src_port, dst_port, payload@);
    assert(r@.skip(8) =~= payload@);
}

/// A TCP probe is a SYN segment without options: ports, the identity of the
/// probe in the upper half of the sequence number, high bytes first, no
/// acknowledgement, and no flag but SYN. Zeros fill it up to its size.
pub proof fn law_tcp_syn_laid_out(
    probe_id: ProbeId,
    src_port: u16,
    dst_port: u16,
    src: IpAddr,
    dst: IpAddr,
    payload_size: usize,
    r: Vec<u8>,
)
    requires
        call_ensures(
            build_tcp_syn_sized,
            (probe_id, src_port, dst_port, src, dst, payload_size),
            r,
        ),
    ensures
        r@.len() == 20 + payload_size,
        r@[0] * 256 + r@[1] == src_port,
        r@[2] * 256 + r@[3] == dst_port,
        r@[4] == probe_id.ttl,
        r@[5] == probe_id.seq,
        forall|i: int| 6 <= i < 12 ==> #[trigger] r@[i] == 0,
        r@[12] == 0x50,
        r@[13] == 2,
        r@[14] * 256 + r@[15] == 64240,
        r@[18] == 0 && r@[19] == 0,
        forall|i: int| 20 <= i < r@.len() ==> #[trigger] r@[i] == 0,
{
}

/// The payload of a UDP probe starts with TTL and number of the probe and a
/// mark, and is as long as asked for, but never shorter than eight bytes.
pub proof fn law_udp_payload_laid_out(
    probe_id: ProbeId,
    size: usize,
    sized: Vec<u8>,
    usual: Vec<u8>,
)
    requires
        call_ensures(build_udp_payload_sized, (probe_id, size), sized),
        call_ensures(build_udp_payload, (probe_id,), usual),
    ensures
        sized@.len() == (if size < 8 {
            8
        } else {
            size + 0
        }),
        usual@.len() == 32,
        sized@[0] == probe_id.ttl && usual@[0] == probe_id.ttl,
        sized@[1] == probe_id.seq && usual@[1] == probe_id.seq,
        sized@[2] == 0x54 && sized@[3] == 0x54 && sized@[4] == 0x4C && sized@[5] == 0,
        usual@[2] == 0x54 && usual@[3] == 0x54 && usual@[4] == 0x4C && usual@[5] == 0,
        forall|i: int| 6 <= i < sized@.len() ==> #[trigger] sized@[i] == (i - 6) % 256,
{
}

/// A UDP payload is taken for a probe's exactly if it has the mark, and a TCP
/// header if eight bytes of it are there; TTL and number are read from where
/// they were written.
pub proof fn law_identity_read_where_written(
    payload: &[u8],
    header: &[u8],
    udp: Option<ProbeId>,
    tcp: Option<ProbeId>,
)
    requires
        call_ensures(extract_probe_id_from_udp_payload, (payload,), udp),
        call_ensures(extract_probe_id_from_tcp, (header,), tcp),
    ensures
        udp is Some <==> payload@.len() >= 6 && payload@[2] == 0x54 && payload@[3] == 0x54
            && payload@[4] == 0x4C,
        udp matches Some(id) ==> id.ttl == payload@[0] && id.seq == payload@[1],
        tcp is Some <==> header@.len() >= 8,
        tcp matches Some(id) ==> id.ttl == header@[4] && id.seq == header@[5],
{
}

/// An echo message is recognised by the identifier in its header, or else by
/// the one that its payload starts with; TTL and number come from the same
/// place. Any other is not ours.
pub proof fn law_echo_recognised_by_identifier(
    message: &[u8],
    identifier: u16,
    r: Option<ProbeId>,
)
    requires
        call_ensures(identify_echo, (message, identifier), r),
        message@.len() >= 12,
    ensures
        message@[4] * 256 + message@[5] == identifier ==> (r matches Some(id) && id.ttl
            == message@[6] && id.seq == message@[7]),
        message@[4] * 256 + message@[5] != identifier && message@[8] * 256 + message@[9]
            == identifier ==> (r matches Some(id) && id.ttl == message@[10] && id.seq
            == message@[11]),
        message@[4] * 256 + message@[5] != identifier && message@[8] * 256 + message@[9]
            != identifier ==> r is None,
{
    let payload = message@.skip(8);
    assert(payload[0] == message@[8] && payload[1] == message@[9] && payload[2] == message@[10]
        && payload[3] == message@[11]);
}

/// The mark of a path-MTU probe is looked for behind the identity and the
/// time.
pub proof fn law_mark_read_where_written(payload: &[u8], r: bool)
    requires
        call_ensures(is_pmtud_payload, (payload,), r),
    ensures
        r <==> payload@.len() >= 9 && payload@[8] == 0x50,
{
}

/// The bytes of `data` weighted as in big-endian words of sixteen bits.
pub open spec fn weighted(data: Seq<u8>) -> int
    decreases data.len(),
{
    if data.len() == 0 {
        0
    } else {
        weighted(data.drop_last()) + data.last() * (if data.len() % 2 == 1 {
            256int
        } else {
            1
        })
    }
}

/// The word sum is the sum of the bytes, those at even places counted 256
/// times.
pub proof fn law_word_sum_weighs_bytes(data: Seq<u8>)
    ensures
        word_sum(data) == weighted(data),
    decreases data.len(),
{
    if data.len() >= 1 {
        let last = data.len() - 1;
        law_word_sum_weighs_bytes(data.drop_last());
        if data.len() % 2 == 1 {
            let front = data.take(last);
            assert(data =~= front + data.skip(last));
            crate::wire::lemma_word_sum_concat(front, data.skip(last));
            assert(data.drop_last() =~= front);
            assert(word_sum(data.skip(last)) == data.last() * 256);
        } else {
            let front = data.take(last - 1);
            let pair = data.skip(last - 1);
            assert(data =~= front + pair);
            crate::wire::lemma_word_sum_concat(front, pair);
            let odd = data.drop_last();
            assert(odd =~= front + odd.skip(last - 1));
            crate::wire::lemma_word_sum_concat(front, odd.skip(last - 1));
            assert(word_sum(odd.skip(last - 1)) == odd[last - 1] * 256);
            assert(pair.len() == 2 && pair[0] == data[last - 1] && pair[1] == data[last]);
            assert(pair.skip(2) =~= Seq::empty());
            assert(word_sum(Seq::<u8>::empty()) == 0);
            assert(word_sum(pair) == data[last - 1] * 256 + data[last]);
        }
    }
}

/// The Internet checksum of data, added to the bytes as they count, comes to
/// a multiple of 65535, and it is zero only where the data alone do.
pub proof fn law_checksum_complements(data: &[u8], r: u16)
    requires
        call_ensures(internet_checksum, (data,), r),
    ensures
        (weighted(data@) + r) % 65535 == 0,
        r == 0xFFFF ==> weighted(data@) == 0,
{
    law_word_sum_weighs_bytes(data@);
    let s = word_sum(data@);
    if s > 0 {
        let m = (s - 1) % 65535;
        assert((s + (0xFFFF - (m + 1))) % 65535 == 0) by (nonlinear_arith)
            requires
                m == (s - 1) % 65535,
                s > 0,
        ;
    }
}

/// A message passes for intact exactly if its bytes, as they count, come to a
/// multiple of 65535.
pub proof fn law_intact_messages(data: &[u8], r: bool)
    requires
        call_ensures(validate_icmp_checksum, (data,), r),
    ensures
        r <==> data@.len() >= 4 && weighted(data@) % 65535 == 0,
{
    law_word_sum_weighs_bytes(data@);
    let s = word_sum(data@);
    if s > 0 {
        assert((s - 1) % 65535 == 65534 <==> s % 65535 == 0) by (nonlinear_arith)
            requires
                s > 0,
        ;
    }
}

/// A number is written with its high byte first or last, as the order says,
/// and which order it was is seen from how one is written.
pub proof fn law_byte_orders(value: u16, order: ByteOrder, r: [u8; 2], shown: ByteOrder, one: [u8; 2])
    requires
        call_ensures(encode_in_order, (value, order), r),
        call_ensures(order_shown, (one,), shown),
        one@.len() == 2,
    ensures
        (order is Big) ==> r@[0] * 256 + r@[1] == value,
        (order is Little) ==> r@[1] * 256 + r@[0] == value,
        one@[0] == 0 && one@[1] == 1 ==> (shown is Big),
        one@[0] == 1 && one@[1] == 0 ==> (shown is Little),
{
}

/// The header of a packet that is written in an order says its length and
/// whether it may be fragmented in that order.
pub proof fn law_header_in_order(
    src: Ipv4Addr,
    dst: Ipv4Addr,
    protocol: u8,
    ttl: u8,
    tos: u8,
    total_len: u16,
    identification: u16,
    dont_fragment: bool,
    order: ByteOrder,
    r: [u8; 20],
)
    requires
        call_ensures(
            build_ipv4_header_in_order,
            (src, dst, protocol, ttl, tos, total_len, identification, dont_fragment, order),
            r,
        ),
    ensures
        r@[0] == 0x45 && r@[1] == tos && r@[8] == ttl && r@[9] == protocol,
        r@[4] * 256 + r@[5] == identification,
        (order is Big) ==> r@[2] * 256 + r@[3] == total_len && r@[6] == (if dont_fragment {
            0x40u8
        } else {
            0
        }) && r@[7] == 0,
        (order is Little) ==> r@[3] * 256 + r@[2] == total_len && r@[7] == (if dont_fragment {
            0x40u8
        } else {
            0
        }) && r@[6] == 0,
{
}

/// The identifier of a process is its number as far as it fits.
pub proof fn law_identifier_of_process(process: u32, r: u16)
    requires
        call_ensures(identifier_of_process, (process,), r),
    ensures
        exists|high: int| process == #[trigger] (high * 65536) + r,
{
    let high = process as int / 65536;
    assert(process == high * 65536 + r);
}

/// Addresses are numbers with the first part the most significant, and are
/// taken apart as they are put together.
pub proof fn law_addresses_are_numbers(
    a: u8,
    b: u8,
    c: u8,
    d: u8,
    v4: Ipv4Addr,
    octets: [u8; 4],
    g: u16,
    h: u16,
    v6: Ipv6Addr,
    segments: [u16; 8],
)
    requires
        call_ensures(Ipv4Addr::new, (a, b, c, d), v4),
        call_ensures(Ipv4Addr::octets, (&v4,), octets),
        call_ensures(Ipv6Addr::new, (0, 0, 0, 0, 0, 0, g, h), v6),
        call_ensures(Ipv6Addr::segments, (&v6,), segments),
    ensures
        v4.bits == a * 0x100_0000 + b * 0x1_0000 + c * 0x100 + d,
        octets@ == seq![a, b, c, d],
        v6.bits == g * 0x1_0000 + h,
        segments@ == seq![0u16, 0u16, 0u16, 0u16, 0u16, 0u16, g, h],
{
    crate::addr::lemma_v4_octets(a, b, c, d);
    crate::addr::law_v6_segments_round_trip(
        seq![0u16, 0u16, 0u16, 0u16, 0u16, 0u16, g, h],
    );
}

/// TTL and number of a probe stand in the two bytes of its sequence number.
pub proof fn law_sequence_holds_ttl(id: ProbeId, sequence: u16, back: ProbeId)
    requires
        call_ensures(ProbeId::to_sequence, (&id,), sequence),
        call_ensures(ProbeId::from_sequence, (sequence,), back),
    ensures
        sequence == id.ttl * 256 + id.seq,
        back == id,
{
}

/// An entry of a label stack is read back from its four bytes.
pub proof fn law_entry_read_back(entry: MplsLabel, bytes: [u8; 4], r: MplsLabel)
    requires
        call_ensures(MplsLabel::from_bytes, (&bytes,), r),
        entry.label < 0x10_0000,
        entry.exp < 8,
        bytes@ == entry_bytes(entry),
    ensures
        r == entry,
{
    crate::probe::laws::lemma_entry_read(entry);
}

/// A stack that a router wrote is what is read, entry by entry.
pub proof fn law_stack_read_by_reader(entries: Seq<MplsLabel>, data: &[u8], after: Seq<u8>, r: Vec<MplsLabel>)
    requires
        call_ensures(read_label_stack, (data,), r),
        entries.len() > 0,
        stackable(entries),
        entries.last().bottom,
        data@ == stack_bytes(entries) + after,
    ensures
        r@ == entries,
{
    law_label_stack_read_back(entries, after);
}

/// An extension object of another class or type in front is passed over.
proof fn lemma_object_passed(object: Seq<u8>, rest: Seq<u8>)
    requires
        4 <= object.len() <= 65535,
        object[0] * 256 + object[1] == object.len(),
        !(object[2] == 1 && object[3] == 1),
    ensures
        first_label_stack(object + rest) == first_label_stack(rest),
{
    let data = object + rest;
    assert(data[0] == object[0] && data[1] == object[1] && data[2] == object[2] && data[3]
        == object[3]);
    assert(data.skip(object.len() as int) =~= rest);
}

/// The bytes of an extension object that holds a label stack: its length,
/// class 1, type 1, and the entries.
pub open spec fn stack_object(entries: Seq<MplsLabel>) -> Seq<u8> {
    let length = 4 + stack_bytes(entries).len();
    seq![(length / 256) as u8, (length % 256) as u8, 1u8, 1u8] + stack_bytes(entries)
}

/// The bytes of extension objects, one after the other.
pub open spec fn all_objects(objects: Seq<Seq<u8>>) -> Seq<u8>
    decreases objects.len(),
{
    if objects.len() == 0 {
        Seq::empty()
    } else {
        objects[0] + all_objects(objects.skip(1))
    }
}

/// Other objects in front of a label stack do not hide it.
proof fn lemma_objects_passed(objects: Seq<Seq<u8>>, rest: Seq<u8>)
    requires
        forall|i: int|
            0 <= i < objects.len() ==> 4 <= (#[trigger] objects[i]).len() <= 65535 && objects[i][0]
                * 256 + objects[i][1] == objects[i].len() && !(objects[i][2] == 1
                && objects[i][3] == 1),
    ensures
        first_label_stack(all_objects(objects) + rest) == first_label_stack(rest),
    decreases objects.len(),
{
    if objects.len() == 0 {
        assert(all_objects(objects) + rest =~= rest);
    } else {
        let more = objects.skip(1);
        assert(all_objects(objects) + rest =~= objects[0] + (all_objects(more) + rest));
        assert(objects[0] == objects[0]);
        lemma_object_passed(objects[0], all_objects(more) + rest);
        assert forall|i: int| 0 <= i < more.len() implies 4 <= (#[trigger] more[i]).len() <= 65535
            && more[i][0] * 256 + more[i][1] == more[i].len() && !(more[i][2] == 1 && more[i][3]
            == 1) by {
            assert(more[i] == objects[i + 1]);
        }
        lemma_objects_passed(more, rest);
    }
}

/// The bytes of a stack are four for each entry.
proof fn lemma_stack_len(entries: Seq<MplsLabel>)
    ensures
        stack_bytes(entries).len() == 4 * entries.len(),
    decreases entries.len(),
{
    if entries.len() > 0 {
        lemma_stack_len(entries.skip(1));
    }
}

/// The label stack in the extensions of an error message is found and read
/// back. The extensions stand behind the quoted datagram, whose length the
/// message gives in words of four bytes, 128 bytes if it gives none; they
/// start with version 2; other objects may stand in front of the stack.
pub proof fn law_extension_labels_found(
    quoted: Seq<u8>,
    header: Seq<u8>,
    objects: Seq<Seq<u8>>,
    entries: Seq<MplsLabel>,
    after: Seq<u8>,
    payload: &[u8],
    length_field: u8,
    r: Option<Vec<MplsLabel>>,
)
    requires
        call_ensures(parse_icmp_extensions_with_length, (payload, length_field), r),
        payload@ == quoted + header + all_objects(objects) + stack_object(entries) + after,
        quoted.len() == (if length_field == 0 {
            128
        } else {
            length_field * 4
        }),
        header.len() == 4,
        0x20 <= header[0] < 0x30,
        forall|i: int|
            0 <= i < objects.len() ==> 4 <= (#[trigger] objects[i]).len() <= 65535 && objects[i][0]
                * 256 + objects[i][1] == objects[i].len() && !(objects[i][2] == 1
                && objects[i][3] == 1),
        0 < entries.len() < 16000,
        stackable(entries),
        entries.last().bottom,
    ensures
        r matches Some(labels) && labels@ == entries,
{
    let rest = stack_object(entries) + after;
    let start = 0int + quoted.len();
    assert(payload@[start] == header[0]);
    assert(payload@.skip(start + 4) =~= all_objects(objects) + rest);
    lemma_objects_passed(objects, rest);
    lemma_stack_len(entries);
    let length = 4 + stack_bytes(entries).len();
    assert(rest[0] == length / 256 && rest[1] == length % 256 && rest[2] == 1 && rest[3] == 1);
    assert(rest.subrange(4, 0int + length) =~= stack_bytes(entries) + Seq::<u8>::empty());
    law_label_stack_read_back(entries, Seq::empty());
    assert(be16_spec(rest[0], rest[1]) == length);
}

/// Extensions of another version than 2, or too short for their header, hold
/// no labels.
pub proof fn law_other_extensions_ignored(payload: &[u8], length_field: u8, r: Option<Vec<MplsLabel>>)
    requires
        call_ensures(parse_icmp_extensions_with_length, (payload, length_field), r),
    ensures
        ({
            let start = if length_field == 0 {
                128
            } else {
                length_field * 4
            };
            payload@.len() < start + 4 || !(0x20 <= payload@[start] < 0x30) ==> r is None
        }),
{
}

/// Hop-by-hop options (0), routing headers (43) and destination options (60)
/// in front of the transport header of an IPv6 packet are stepped over by
/// the length that they give.
pub proof fn law_extension_header_stepped_over(data: Seq<u8>, kind: u8, offset: int)
    requires
        kind == 0 || kind == 43 || kind == 60,
        0 <= offset,
        offset + 2 <= data.len(),
        offset + 8 * (data[offset + 1] + 1) <= data.len(),
    ensures
        walk_headers(data, kind, offset) == walk_headers(
            data,
            data[offset],
            offset + 8 * (data[offset + 1] + 1),
        ),
{
}

/// A transport header that is reached is where the walk ends; fragments (44),
/// protected packets (50, 51) and packets that carry nothing (59) have none.
pub proof fn law_walk_ends_at_transport(data: Seq<u8>, kind: u8, offset: int)
    requires
        kind != 0 && kind != 43 && kind != 60,
    ensures
        kind == 44 || kind == 50 || kind == 51 || kind == 59 ==> walk_headers(data, kind, offset)
            is None,
        kind != 44 && kind != 50 && kind != 51 && kind != 59 ==> walk_headers(data, kind, offset)
            == Some((offset, kind)),
{
}

/// The walk starts behind the forty bytes of the IPv6 header, with the number
/// that its seventh byte gives.
pub proof fn law_walk_starts_behind_header(data: &[u8], r: Option<(usize, u8)>)
    requires
        call_ensures(skip_ipv6_ext_headers_quoted, (data,), r),
    ensures
        data@.len() < 40 ==> r is None,
        data@.len() >= 40 ==> match walk_headers(data@, data@[6], 40) {
            Some((offset, kind)) => r matches Some(found) && found.0 == offset && found.1 == kind,
            None => r is None,
        },
        r matches Some(found) ==> 40 <= found.0 <= data@.len(),
{
    if data@.len() >= 40 {
        lemma_walk_grows(data@, data@[6], 40);
    }
}

/// A walk goes forward.
proof fn lemma_walk_grows(data: Seq<u8>, kind: u8, offset: int)
    ensures
        walk_headers(data, kind, offset) matches Some(found) ==> found.0 >= offset,
    decreases data.len() - offset,
{
    if (kind == 0 || kind == 43 || kind == 60) && data.len() >= offset + 2 {
        let length = (data[offset + 1] + 1) * 8;
        if offset + length <= data.len() {
            lemma_walk_grows(data, data[offset], offset + length);
        }
    }
}

/// A packet with an ICMPv6 message, and nothing between the headers, is read
/// as that message.
pub proof fn law_v6_packet_is_message(
    header: Seq<u8>,
    message: Seq<u8>,
    responder: IpAddr,
    identifier: u16,
)
    requires
        header.len() == 40,
        header[6] == 58,
    ensures
        packet_response_v6(header + message, responder, identifier) == message_response_v6(
            message,
            responder,
            identifier,
        ),
{
    let data = header + message;
    law_walk_ends_at_transport(data, 58, 40);
    assert(data[6] == 58);
    assert(data.skip(40) =~= message);
}

/// An interface serves a family if it has an address of it, and its gateway
/// is of the family asked for.
pub proof fn law_interface_by_family(
    interface: &InterfaceInfo,
    ipv6: bool,
    supports: bool,
    gateway: Option<IpAddr>,
)
    requires
        call_ensures(InterfaceInfo::supports, (interface, ipv6), supports),
        call_ensures(InterfaceInfo::gateway, (interface, ipv6), gateway),
    ensures
        ipv6 ==> (supports <==> interface.ipv6 is Some),
        !ipv6 ==> (supports <==> interface.ipv4 is Some),
        gateway matches Some(ip) ==> ((ip is V6) <==> ipv6),
        gateway matches Some(IpAddr::V4(a)) ==> interface.gateway_ipv4 == Some(a),
        gateway matches Some(IpAddr::V6(a)) ==> interface.gateway_ipv6 == Some(a),
        gateway is None ==> if ipv6 {
            interface.gateway_ipv6 is None
        } else {
            interface.gateway_ipv4 is None
        },
{
}

/// The words of an IPv4 address as bytes come to its two halves.
proof fn lemma_words_of_v4(ip: Ipv4Addr)
    ensures
        ip.octets_spec().len() == 4,
        word_sum(ip.octets_spec()) == ip.bits / 65536 + ip.bits % 65536,
{
    let s = ip.octets_spec();
    let bits = ip.bits;
    reveal_with_fuel(word_sum, 3);
    assert(s.skip(2)[0] == s[2] && s.skip(2)[1] == s[3]);
    assert(s.skip(2).skip(2).len() == 0);
    assert(bits / 0x100_0000 < 256);
    assert(s[0] * 256 + s[1] == bits / 65536);
    assert(s[2] * 256 + s[3] == bits % 65536);
}

/// The words of numbers written as bytes come to their sum.
proof fn lemma_words_of_segments(segments: Seq<u16>)
    ensures
        segment_bytes(segments).len() == 2 * segments.len(),
        word_sum(segment_bytes(segments)) == segment_sum(segments),
    decreases segments.len(),
{
    if segments.len() > 0 {
        lemma_words_of_segments(segments.drop_last());
        lemma_words_of_number(segments.last());
        crate::wire::lemma_word_sum_concat(
            segment_bytes(segments.drop_last()),
            be_bytes(segments.last()),
        );
    }
}

/// A number of two bytes is one word.
proof fn lemma_words_of_number(v: u16)
    ensures
        word_sum(be_bytes(v)) == v,
{
    let s = be_bytes(v);
    reveal_with_fuel(word_sum, 2);
    assert(s.skip(2).len() == 0);
    crate::wire::lemma_be16_of_bytes(v);
}

/// What folds to all ones is a multiple of 65535.
proof fn lemma_folded_to_ones(s: nat)
    requires
        fold16(s) == 0xFFFF,
    ensures
        s % 65535 == 0,
{
    assert(s % 65535 == 0) by (nonlinear_arith)
        requires
            s > 0,
            (s - 1) % 65535 == 65534,
    ;
}

/// The words of a datagram, of its addresses, its length and the number of
/// UDP come to a multiple of 65535.
pub proof fn law_udp_checksum_covers_addresses(
    src: Ipv4Addr,
    dst: Ipv4Addr,
    src_port: u16,
    dst_port: u16,
    payload: &[u8],
    r: Vec<u8>,
)
    requires
        call_ensures(build_udp_datagram, (src, dst, src_port, dst_port, payload), r),
        payload@.len() + 8 <= 65535,
    ensures
        (src.bits / 65536 + src.bits % 65536 + dst.bits / 65536 + dst.bits % 65536 + 17 + r@.len()
            + weighted(r@)) % 65535 == 0,
{
    crate::probe::rawip::law_udp_datagram_verifies(src, dst, src_port, dst_port, payload@);
    law_word_sum_weighs_bytes(r@);
    lemma_words_of_v4(src);
    lemma_words_of_v4(dst);
    let len = (r@.len() % 65536) as u16;
    lemma_words_of_number(len);
    let kind = seq![0u8, 17u8];
    reveal_with_fuel(word_sum, 2);
    assert(kind.skip(2).len() == 0);
    assert(word_sum(kind) == 17);
    let a = src.octets_spec();
    let b = dst.octets_spec();
    crate::wire::lemma_word_sum_concat(a, b);
    crate::wire::lemma_word_sum_concat(a + b, kind);
    crate::wire::lemma_word_sum_concat(a + b + kind, be_bytes(len));
    crate::wire::lemma_word_sum_concat(a + b + kind + be_bytes(len), r@);
    lemma_folded_to_ones(word_sum(a + b + kind + be_bytes(len) + r@));
}

/// The words of a segment, of its addresses, its length and the number of TCP
/// come to a multiple of 65535, for either family.
pub proof fn law_tcp_checksum_covers_addresses(
    probe_id: ProbeId,
    src_port: u16,
    dst_port: u16,
    src: IpAddr,
    dst: IpAddr,
    payload_size: usize,
    r: Vec<u8>,
)
    requires
        call_ensures(
            build_tcp_syn_sized,
            (probe_id, src_port, dst_port, src, dst, payload_size),
            r,
        ),
        payload_size + 20 <= 65535,
    ensures
        src matches IpAddr::V4(s) ==> (dst matches IpAddr::V4(d) ==> (s.bits / 65536 + s.bits
            % 65536 + d.bits / 65536 + d.bits % 65536 + 6 + r@.len() + weighted(r@)) % 65535 == 0),
        src matches IpAddr::V6(s) ==> (dst matches IpAddr::V6(d) ==> (segment_sum(
            s.segments_spec(),
        ) + segment_sum(d.segments_spec()) + 6 + r@.len() + weighted(r@)) % 65535 == 0),
{
    crate::probe::tcp::law_tcp_syn_verifies(
        probe_id,
        src_port,
        dst_port,
        src,
        dst,
        payload_size as nat,
    );
    law_word_sum_weighs_bytes(r@);
    let len = (20 + payload_size) as u16;
    lemma_words_of_number(len);
    let size = be_bytes(len);
    let a = crate::probe::tcp::address_bytes(src);
    let b = crate::probe::tcp::address_bytes(dst);
    reveal_with_fuel(word_sum, 3);
    if src is V4 && dst is V4 {
        lemma_words_of_v4(src->V4_0);
        lemma_words_of_v4(dst->V4_0);
        let kind = seq![0u8, 6u8];
        assert(kind.skip(2).len() == 0);
        assert(word_sum(kind) == 6);
        crate::wire::lemma_word_sum_concat(kind, size);
        crate::wire::lemma_word_sum_concat(a, b);
        crate::wire::lemma_word_sum_concat(a + b, kind + size);
        crate::wire::lemma_word_sum_concat(a + b + (kind + size), r@);
        lemma_folded_to_ones(word_sum(a + b + (kind + size) + r@));
    } else if src is V6 && dst is V6 {
        lemma_words_of_segments(src->V6_0.segments_spec());
        lemma_words_of_segments(dst->V6_0.segments_spec());
        let zero = seq![0u8, 0u8];
        let kind = seq![0u8, 0u8, 0u8, 6u8];
        assert(zero.skip(2).len() == 0);
        assert(word_sum(zero) == 0);
        assert(kind.skip(2)[0] == 0 && kind.skip(2)[1] == 6);
        assert(kind.skip(2).skip(2).len() == 0);
        assert(word_sum(kind) == 6);
        crate::wire::lemma_word_sum_concat(zero, size);
        crate::wire::lemma_word_sum_concat(zero + size, kind);
        crate::wire::lemma_word_sum_concat(a, b);
        crate::wire::lemma_word_sum_concat(a + b, zero + size + kind);
        crate::wire::lemma_word_sum_concat(a + b + (zero + size + kind), r@);
        lemma_folded_to_ones(word_sum(a + b + (zero + size + kind) + r@));
    }
}

/// The words of a control message of IPv6, of its addresses, its length and
/// the number 58 come to a multiple of 65535 with its checksum.
pub proof fn law_v6_checksum_covers_addresses(
    data: &[u8],
    src: Ipv6Addr,
    dst: Ipv6Addr,
    r: u16,
    plain: Seq<u8>,
)
    requires
        call_ensures(echo_checksum_v6, (data, src, dst), r),
        data@.len() >= 4,
        plain.len() == data@.len(),
        plain[2] == 0 && plain[3] == 0,
        forall|i: int| 0 <= i < plain.len() && i != 2 && i != 3 ==> plain[i] == data@[i],
    ensures
        (segment_sum(src.segments_spec()) + segment_sum(dst.segments_spec()) + data@.len() + 58
            + weighted(plain) + r) % 65535 == 0,
{
    law_word_sum_weighs_bytes(plain);
    assert(plain =~= without_checksum(data@));
    let s = (segment_sum(src.segments_spec()) + segment_sum(dst.segments_spec()) + data@.len() + 58
        + word_sum(plain)) as nat;
    let m = (s - 1) % 65535;
    assert((s + (0xFFFF - (m + 1))) % 65535 == 0) by (nonlinear_arith)
        requires
            m == (s - 1) % 65535,
            s > 0,
    ;
}

/// An echo request of IPv4 comes to a multiple of 65535 by itself.
pub proof fn law_echo_request_intact(
    identifier: u16,
    sequence: u16,
    payload_size: usize,
    addrs: Option<(Ipv6Addr, Ipv6Addr)>,
    pmtud: bool,
    timestamp: u32,
    r: Vec<u8>,
)
    requires
        call_ensures(
            build_echo_request,
            (identifier, sequence, payload_size, false, addrs, pmtud, timestamp),
            r,
        ),
    ensures
        weighted(r@) % 65535 == 0,
{
    law_word_sum_weighs_bytes(r@);
    law_echo_request_verifies(
        identifier,
        sequence,
        payload_size as int,
        pmtud,
        timestamp,
    );
    lemma_folded_to_ones(word_sum(r@));
}

} // verus!
