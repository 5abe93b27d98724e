//! TCP SYN probes.

use crate::addr::{IpAddr, Ipv6Addr};
use crate::probe::rawip::{
    be_bytes, internet_checksum, lemma_fold16_complement, lemma_word_sum_fill, IPPROTO_TCP,
};
use crate::state::ProbeId;
use crate::wire::{be16, be16_spec, checksum_spec, hi8, hi8_spec, lo8, lo8_spec, word_sum};
use vstd::prelude::*;

verus! {

/// The window that a probe announces.
pub const WINDOW: u16 = 64240;

/// The probe that a quoted TCP header belongs to: the high half of its
/// sequence number, of a quote that holds the whole sequence number.
pub open spec fn tcp_probe_id(header: Seq<u8>) -> Option<ProbeId> {
    if header.len() >= 8 {
        Some(ProbeId::of_sequence(be16_spec(header[4], header[5])))
    } else {
        None
    }
}

/// Reads the probe identity out of a quoted TCP header.
pub fn extract_probe_id_from_tcp(header: &[u8]) -> (r: Option<ProbeId>)
    ensures
        r == tcp_probe_id(header@),
{
    if header.len() < 8 {
        return None;
    }
    Some(ProbeId::from_sequence(be16(header[4], header[5])))
}

/// Segments as bytes in network order.
pub open spec fn segment_bytes(segments: Seq<u16>) -> Seq<u8>
    decreases segments.len(),
{
    if segments.len() == 0 {
        Seq::empty()
    } else {
        segment_bytes(segments.drop_last()) + be_bytes(segments.last())
    }
}

/// An address as bytes in network order.
pub open spec fn address_bytes(ip: IpAddr) -> Seq<u8> {
    match ip {
        IpAddr::V4(a) => a.octets_spec(),
        IpAddr::V6(a) => segment_bytes(a.segments_spec()),
    }
}

proof fn lemma_address_bytes(ip: IpAddr)
    ensures
        address_bytes(ip).len() == (if ip is V6 {
            16int
        } else {
            4
        }),
{
    if let IpAddr::V6(a) = ip {
        lemma_segment_bytes(a.segments_spec());
    }
}

proof fn lemma_segment_bytes(segments: Seq<u16>)
    ensures
        segment_bytes(segments).len() == 2 * segments.len(),
    decreases segments.len(),
{
    if segments.len() > 0 {
        lemma_segment_bytes(segments.drop_last());
    }
}

/// What a TCP checksum covers beside the segment: the addresses, the protocol
/// and the length.
pub open spec fn tcp_pseudo_header(src: IpAddr, dst: IpAddr, len: u16) -> Seq<u8> {
    address_bytes(src) + address_bytes(dst) + (if dst is V6 {
        seq![0u8, 0u8] + be_bytes(len) + seq![0u8, 0u8, 0u8, IPPROTO_TCP]
    } else {
        seq![0u8, IPPROTO_TCP] + be_bytes(len)
    })
}

/// A SYN segment whose checksum field holds `checksum`: the probe is in the
/// high half of the sequence number, the payload is all zeros.
pub open spec fn tcp_syn_with(
    probe_id: ProbeId,
    src_port: u16,
    dst_port: u16,
    payload_size: nat,
    checksum: u16,
) -> Seq<u8> {
    be_bytes(src_port) + be_bytes(dst_port) + be_bytes(probe_id.sequence()) + seq![
        0u8,
        0u8,
        0u8,
        0u8,
        0u8,
        0u8,
        0x50u8,
        0x02u8,
    ] + be_bytes(WINDOW) + be_bytes(checksum) + seq![0u8, 0u8] + Seq::new(
        payload_size,
        |i: int| 0u8,
    )
}

/// The checksum of a SYN segment.
pub open spec fn tcp_syn_checksum(
    probe_id: ProbeId,
    src_port: u16,
    dst_port: u16,
    src: IpAddr,
    dst: IpAddr,
    payload_size: nat,
) -> u16 {
    checksum_spec(
        tcp_pseudo_header(src, dst, (20 + payload_size) as u16) + tcp_syn_with(
            probe_id,
            src_port,
            dst_port,
            payload_size,
            0,
        ),
    )
}

/// A SYN segment with its checksum.
pub open spec fn tcp_syn_spec(
    probe_id: ProbeId,
    src_port: u16,
    dst_port: u16,
    src: IpAddr,
    dst: IpAddr,
    payload_size: nat,
) -> Seq<u8> {
    tcp_syn_with(
        probe_id,
        src_port,
        dst_port,
        payload_size,
        tcp_syn_checksum(probe_id, src_port, dst_port, src, dst, payload_size),
    )
}

fn push_word(out: &mut Vec<u8>, value: u16)
    ensures
        final(out)@ == old(out)@ + be_bytes(value),
{
    out.push(hi8(value));
    out.push(lo8(value));
    assert(out@ =~= old(out)@ + be_bytes(value));
}

fn push_segments(out: &mut Vec<u8>, a: Ipv6Addr)
    ensures
        final(out)@ == old(out)@ + segment_bytes(a.segments_spec()),
{
    let segments: [u16; 8] = a.segments();
    let mut i: usize = 0;
    assert(segments@.take(0) =~= Seq::empty());
    assert(out@ =~= old(out)@ + segment_bytes(segments@.take(0)));
    while i < 8
        invariant
            i <= 8,
            segments@.len() == 8,
            out@ == old(out)@ + segment_bytes(segments@.take(i as int)),
        decreases 8 - i,
    {
        push_word(out, segments[i]);
        proof {
            assert(segments@.take(i + 1).drop_last() =~= segments@.take(i as int));
            assert(out@ =~= old(out)@ + segment_bytes(segments@.take(i + 1)));
        }
        i = i + 1;
    }
    assert(segments@.take(8) =~= segments@);
}

fn push_address(out: &mut Vec<u8>, ip: IpAddr)
    ensures
        final(out)@ == old(out)@ + address_bytes(ip),
{
    match ip {
        IpAddr::V4(a) => {
            let octets: [u8; 4] = a.octets();
            out.push(octets[0]);
            out.push(octets[1]);
            out.push(octets[2]);
            out.push(octets[3]);
            assert(out@ =~= old(out)@ + address_bytes(ip));
        },
        IpAddr::V6(a) => {
            push_segments(out, a);
        },
    }
}

/// The pseudo-header of a segment.
fn pseudo_header(src: IpAddr, dst: IpAddr, len: u16) -> (r: Vec<u8>)
    ensures
        r@ == tcp_pseudo_header(src, dst, len),
{
    let mut out: Vec<u8> = Vec::new();
    push_address(&mut out, src);
    push_address(&mut out, dst);
    let ghost both = out@;
    assert(both =~= address_bytes(src) + address_bytes(dst));
    match dst {
        IpAddr::V6(_) => {
            out.push(0);
            out.push(0);
            push_word(&mut out, len);
            out.push(0);
            out.push(0);
            out.push(0);
            out.push(IPPROTO_TCP);
        },
        IpAddr::V4(_) => {
            out.push(0);
            out.push(IPPROTO_TCP);
            push_word(&mut out, len);
        },
    }
    assert(out@ =~= tcp_pseudo_header(src, dst, len));
    out
}

/// Builds a SYN segment that carries a probe.
pub fn build_tcp_syn_sized(
    probe_id: ProbeId,
    src_port: u16,
    dst_port: u16,
    src: IpAddr,
    dst: IpAddr,
    payload_size: usize,
) -> (r: Vec<u8>)
    requires
        payload_size + 20 <= 65535,
    ensures
        r@ == tcp_syn_spec(probe_id, src_port, dst_port, src, dst, payload_size as nat),
{
    let mut out: Vec<u8> = Vec::new();
    push_word(&mut out, src_port);
    push_word(&mut out, dst_port);
    push_word(&mut out, probe_id.to_sequence());
    out.push(0);
    out.push(0);
    out.push(0);
    out.push(0);
    out.push(0);
    out.push(0);
    out.push(0x50);
    out.push(0x02);
    push_word(&mut out, WINDOW);
    push_word(&mut out, 0);
    push_word(&mut out, 0);
    let ghost header = out@;
    assert(header.len() == 20);
    let mut i: usize = 0;
    while i < payload_size
        invariant
            i <= payload_size,
            out@ == header + Seq::new(i as nat, |j: int| 0u8),
        decreases payload_size - i,
    {
        out.push(0);
        i = i + 1;
        assert(out@ =~= header + Seq::new(i as nat, |j: int| 0u8));
    }
    assert(out@ =~= tcp_syn_with(probe_id, src_port, dst_port, payload_size as nat, 0));
    let mut covered: Vec<u8> = pseudo_header(src, dst, (20 + payload_size) as u16);
    covered.extend_from_slice(out.as_slice());
    let sum: u16 = internet_checksum(covered.as_slice());
    proof {
        assert(covered@ =~= tcp_pseudo_header(src, dst, (20 + payload_size) as u16)
            + tcp_syn_with(probe_id, src_port, dst_port, payload_size as nat, 0));
    }
    out.set(16, hi8(sum));
    out.set(17, lo8(sum));
    assert(out@ =~= tcp_syn_with(probe_id, src_port, dst_port, payload_size as nat, sum));
    out
}

/// The probe of a SYN segment is read back from its first bytes.
pub proof fn law_tcp_probe_round_trip(
    probe_id: ProbeId,
    src_port: u16,
    dst_port: u16,
    src: IpAddr,
    dst: IpAddr,
    payload_size: nat,
)
    ensures
        tcp_probe_id(
            tcp_syn_spec(probe_id, src_port, dst_port, src, dst, payload_size).take(8),
        ) == Some(probe_id),
{
    crate::state::law_probe_id_round_trip(probe_id);
}

/// A built SYN segment verifies: with its pseudo-header it sums to all ones.
pub proof fn law_tcp_syn_verifies(
    probe_id: ProbeId,
    src_port: u16,
    dst_port: u16,
    src: IpAddr,
    dst: IpAddr,
    payload_size: nat,
)
    ensures
        checksum_spec(
            tcp_pseudo_header(src, dst, (20 + payload_size) as u16) + tcp_syn_spec(
                probe_id,
                src_port,
                dst_port,
                src,
                dst,
                payload_size,
            ),
        ) == 0,
{
    let pseudo = tcp_pseudo_header(src, dst, (20 + payload_size) as u16);
    let zeroed = tcp_syn_with(probe_id, src_port, dst_port, payload_size, 0);
    let all = pseudo + zeroed;
    let sent = tcp_syn_checksum(probe_id, src_port, dst_port, src, dst, payload_size);
    let segment = tcp_syn_spec(probe_id, src_port, dst_port, src, dst, payload_size);
    lemma_address_bytes(src);
    lemma_address_bytes(dst);
    let k: int = pseudo.len() + 16int;
    assert(pseudo + segment =~= all.update(k, hi8_spec(sent)).update(
        k + 1,
        lo8_spec(sent),
    ));
    lemma_word_sum_fill(all, k, sent);
    lemma_fold16_complement(word_sum(all));
}

} // verus!
