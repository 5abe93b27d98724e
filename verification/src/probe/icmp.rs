//! ICMP Echo Request probes.

use crate::addr::Ipv6Addr;
use crate::probe::packet::{
    echo_checksum, set_echo_checksum, set_echo_code, set_echo_identifier, set_echo_sequence,
    set_echo_type,
};
use crate::wire::{
    add16, checksum_spec, fold16, fold_from, hi8, hi8_spec, lemma_stands_for_fold,
    lemma_word_sum_bound, lemma_word_sum_concat, lo8, lo8_spec, stands_for, sum_words, word_sum,
};
use vstd::prelude::*;

verus! {

/// ICMP header size (fixed).
pub const ICMP_HEADER_SIZE: usize = 8;

/// Default payload size (standard ping).
pub const DEFAULT_PAYLOAD_SIZE: usize = 56;

/// Minimum payload size (identity and timestamp).
pub const MIN_PAYLOAD_SIZE: usize = 8;

/// Marker byte that tells path-MTU probes from normal ones. Echo Replies
/// carry the payload back unchanged, so the receiver can see it.
pub const PMTUD_MARKER: u8 = 0x50;

/// Sum of 16-bit numbers.
pub open spec fn segment_sum(segments: Seq<u16>) -> nat
    decreases segments.len(),
{
    if segments.len() == 0 {
        0
    } else {
        segment_sum(segments.drop_last()) + segments.last() as nat
    }
}

/// A message with its checksum field taken as zero.
pub open spec fn without_checksum(data: Seq<u8>) -> Seq<u8> {
    if data.len() >= 4 {
        data.update(2, 0).update(3, 0)
    } else {
        data
    }
}

/// What an ICMPv6 checksum sums (RFC 8200): both addresses, the length, the
/// next-header number 58 and the message without its checksum field.
pub open spec fn message_sum_v6(data: Seq<u8>, src: Ipv6Addr, dest: Ipv6Addr) -> nat {
    segment_sum(src.segments_spec()) + segment_sum(dest.segments_spec()) + data.len() + 58
        + word_sum(without_checksum(data))
}

/// The high half of a 32-bit number may be added to the low half without
/// changing the fold.
proof fn lemma_fold16_halves(h: nat, l: nat, rest: nat)
    ensures
        fold16(h * 65536 + l + rest) == fold16(h + l + rest),
{
    if h + l + rest > 0 {
        assert(h * 65536 + l + rest - 1 == 65535 * h + (h + l + rest - 1)) by (nonlinear_arith);
        vstd::arithmetic::div_mod::lemma_mod_multiples_vanish(h as int, h + l + rest - 1, 65535);
    }
}

/// Folds eight segments into a running one's-complement sum.
fn sum_segments(start: u16, segments: &[u16; 8], Ghost(total): Ghost<nat>) -> (r: u16)
    requires
        stands_for(start, total),
    ensures
        stands_for(r, total + segment_sum(segments@)),
{
    let mut sum: u16 = start;
    let mut i: usize = 0;
    while i < 8
        invariant
            i <= 8,
            segments@.len() == 8,
            stands_for(sum, total + segment_sum(segments@.take(i as int))),
        decreases 8 - i,
    {
        sum = add16(sum, segments[i], Ghost(total + segment_sum(segments@.take(i as int))));
        assert(segments@.take(i + 1).drop_last() =~= segments@.take(i as int));
        i = i + 1;
    }
    assert(segments@.take(8) =~= segments@);
    sum
}

/// Folds a 32-bit length into a running one's-complement sum.
fn sum_length(start: u16, len: u32, Ghost(total): Ghost<nat>) -> (r: u16)
    requires
        stands_for(start, total),
    ensures
        stands_for(r, total + len as nat),
{
    let high: u16 = (len / 65536) as u16;
    let low: u16 = (len % 65536) as u16;
    let first: u16 = add16(start, high, Ghost(total));
    let second: u16 = add16(first, low, Ghost(total + high as nat));
    proof {
        assert forall|rest: nat| #[trigger]
            fold_from(second, rest) == fold16(total + len as nat + rest) by {
            assert(fold_from(second, rest) == fold16(total + high as nat + low as nat + rest));
            lemma_fold16_halves(high as nat, low as nat, total + rest);
        }
    }
    second
}

/// Folds a message without its checksum field into a running sum.
fn sum_message(start: u16, data: &[u8], Ghost(total): Ghost<nat>) -> (r: u16)
    requires
        stands_for(start, total),
    ensures
        stands_for(r, total + word_sum(without_checksum(data@))),
{
    if data.len() >= 4 {
        let head: &[u8] = vstd::slice::slice_subrange(data, 0, 2);
        let tail: &[u8] = vstd::slice::slice_subrange(data, 4, data.len());
        let first: u16 = sum_words(start, head, Ghost(total));
        let second: u16 = sum_words(first, tail, Ghost(total + word_sum(head@)));
        proof {
            let zero = seq![0u8, 0u8];
            assert(without_checksum(data@) =~= head@ + zero + tail@);
            lemma_word_sum_concat(head@ + zero, tail@);
            lemma_word_sum_concat(head@, zero);
            assert(word_sum(zero) == 0) by {
                assert(zero.skip(2).len() == 0);
                reveal_with_fuel(word_sum, 2);
            }
        }
        second
    } else {
        sum_words(start, data, Ghost(total))
    }
}

/// Computes the ICMPv6 checksum, pseudo-header included. The message's own
/// checksum field does not count.
pub fn echo_checksum_v6(data: &[u8], src_addr: Ipv6Addr, dest_addr: Ipv6Addr) -> (r: u16)
    requires
        data@.len() <= u32::MAX,
    ensures
        r == 0xFFFF - fold16(message_sum_v6(data@, src_addr, dest_addr)),
{
    let ghost src_sum = segment_sum(src_addr.segments_spec());
    let ghost both = src_sum + segment_sum(dest_addr.segments_spec());
    let ghost length = data@.len();
    proof {
        assert forall|rest: nat| #[trigger] fold_from(0, rest) == fold16(0 + rest) by {}
    }
    let a: u16 = sum_segments(0, &src_addr.segments(), Ghost(0));
    let b: u16 = sum_segments(a, &dest_addr.segments(), Ghost(src_sum));
    let c: u16 = sum_length(b, data.len() as u32, Ghost(both));
    let d: u16 = add16(c, 58, Ghost(both + length));
    let sum: u16 = sum_message(d, data, Ghost(both + length + 58));
    proof {
        lemma_stands_for_fold(sum, message_sum_v6(data@, src_addr, dest_addr));
    }
    0xFFFF - sum
}

/// The process id as an ICMP identification field.
pub fn identifier_of_process(process_id: u32) -> (r: u16)
    ensures
        r == process_id % 65536,
{
    (process_id % 65536) as u16
}

/// Byte `i` of a 32-bit number, big-endian.
pub open spec fn byte_of_u32(v: u32, i: int) -> u8 {
    if i == 0 {
        (v / 0x100_0000) as u8
    } else if i == 1 {
        ((v / 0x1_0000) % 256) as u8
    } else if i == 2 {
        ((v / 0x100) % 256) as u8
    } else {
        (v % 256) as u8
    }
}

/// Payload byte `i` of an Echo Request: identifier, sequence, timestamp (four
/// bytes), the marker or zero, then a counting pattern.
pub open spec fn echo_payload_byte(
    identifier: u16,
    sequence: u16,
    timestamp: u32,
    pmtud: bool,
    i: int,
) -> u8 {
    if i == 0 {
        hi8_spec(identifier)
    } else if i == 1 {
        lo8_spec(identifier)
    } else if i == 2 {
        hi8_spec(sequence)
    } else if i == 3 {
        lo8_spec(sequence)
    } else if i < 8 {
        byte_of_u32(timestamp, i - 4)
    } else if i == 8 && pmtud {
        PMTUD_MARKER
    } else {
        ((i - 8) % 256) as u8
    }
}

/// Payload length of a request: as asked, but at least the minimum.
pub open spec fn echo_payload_len(payload_size: int) -> int {
    if payload_size < MIN_PAYLOAD_SIZE {
        MIN_PAYLOAD_SIZE as int
    } else {
        payload_size
    }
}

/// The payload of an Echo Request.
pub open spec fn echo_payload(
    identifier: u16,
    sequence: u16,
    payload_size: int,
    pmtud: bool,
    timestamp: u32,
) -> Seq<u8> {
    Seq::new(
        echo_payload_len(payload_size) as nat,
        |i: int| echo_payload_byte(identifier, sequence, timestamp, pmtud, i),
    )
}

/// An Echo Request whose checksum field holds `checksum`.
pub open spec fn echo_request_with(
    identifier: u16,
    sequence: u16,
    payload_size: int,
    ipv6: bool,
    pmtud: bool,
    timestamp: u32,
    checksum: u16,
) -> Seq<u8> {
    seq![
        if ipv6 { 128u8 } else { 8u8 },
        0u8,
        hi8_spec(checksum),
        lo8_spec(checksum),
        hi8_spec(identifier),
        lo8_spec(identifier),
        hi8_spec(sequence),
        lo8_spec(sequence),
    ] + echo_payload(identifier, sequence, payload_size, pmtud, timestamp)
}

/// The checksum of an Echo Request: over the message for IPv4, with the
/// pseudo-header for IPv6, zero for IPv6 without addresses.
pub open spec fn echo_request_checksum(
    unsummed: Seq<u8>,
    ipv6: bool,
    ipv6_addrs: Option<(Ipv6Addr, Ipv6Addr)>,
) -> u16 {
    if !ipv6 {
        checksum_spec(unsummed)
    } else {
        match ipv6_addrs {
            Some(addrs) => (0xFFFF - fold16(message_sum_v6(unsummed, addrs.0, addrs.1))) as u16,
            None => 0,
        }
    }
}

/// The whole Echo Request.
pub open spec fn echo_request_spec(
    identifier: u16,
    sequence: u16,
    payload_size: int,
    ipv6: bool,
    ipv6_addrs: Option<(Ipv6Addr, Ipv6Addr)>,
    pmtud: bool,
    timestamp: u32,
) -> Seq<u8> {
    let unsummed = echo_request_with(identifier, sequence, payload_size, ipv6, pmtud, timestamp, 0);
    echo_request_with(
        identifier,
        sequence,
        payload_size,
        ipv6,
        pmtud,
        timestamp,
        echo_request_checksum(unsummed, ipv6, ipv6_addrs),
    )
}

/// Appends the payload of an Echo Request.
fn push_echo_payload(
    buffer: &mut Vec<u8>,
    identifier: u16,
    sequence: u16,
    payload_size: usize,
    pmtud: bool,
    timestamp: u32,
)
    requires
        payload_size >= MIN_PAYLOAD_SIZE,
    ensures
        final(buffer)@ == old(buffer)@ + echo_payload(
            identifier,
            sequence,
            payload_size as int,
            pmtud,
            timestamp,
        ),
{
    let ghost start = buffer@;
    buffer.push(hi8(identifier));
    buffer.push(lo8(identifier));
    buffer.push(hi8(sequence));
    buffer.push(lo8(sequence));
    buffer.push((timestamp / 0x100_0000) as u8);
    buffer.push(((timestamp / 0x1_0000) % 256) as u8);
    buffer.push(((timestamp / 0x100) % 256) as u8);
    buffer.push((timestamp % 256) as u8);
    let mut i: usize = 8;
    while i < payload_size
        invariant
            8 <= i <= payload_size,
            buffer@.len() == start.len() + i,
            buffer@.take(start.len() as int) =~= start,
            forall|j: int|
                0 <= j < i ==> #[trigger] buffer@[start.len() + j] == echo_payload_byte(
                    identifier,
                    sequence,
                    timestamp,
                    pmtud,
                    j,
                ),
        decreases payload_size - i,
    {
        let byte: u8 = if pmtud && i == 8 {
            PMTUD_MARKER
        } else {
            ((i - 8) % 256) as u8
        };
        let ghost before = buffer@;
        buffer.push(byte);
        assert(buffer@.take(start.len() as int) =~= before.take(start.len() as int));
        i = i + 1;
    }
    proof {
        let payload = echo_payload(identifier, sequence, payload_size as int, pmtud, timestamp);
        assert forall|k: int| 0 <= k < buffer@.len() implies #[trigger] buffer@[k] == (start
            + payload)[k] by {
            if k < start.len() {
                assert(buffer@[k] == buffer@.take(start.len() as int)[k]);
            } else {
                assert(buffer@[start.len() + (k - start.len())] == payload[k - start.len()]);
            }
        }
        assert(buffer@ =~= start + payload);
    }
}

/// Builds an ICMP Echo Request with a payload of `payload_size` bytes (at
/// least the minimum); with `ipv6`, an ICMPv6 one.
///
/// The IPv6 checksum covers a pseudo-header, so it needs the source and
/// destination addresses; without them the field stays zero. Identifier and
/// sequence are repeated at the start of the payload for kernels that rewrite
/// the header's identifier. `timestamp` is the low 32 bits of the time in
/// microseconds.
pub fn build_echo_request(
    identifier: u16,
    sequence: u16,
    payload_size: usize,
    ipv6: bool,
    ipv6_addrs: Option<(Ipv6Addr, Ipv6Addr)>,
    pmtud: bool,
    timestamp: u32,
) -> (r: Vec<u8>)
    requires
        echo_payload_len(payload_size as int) + 8 <= usize::MAX,
        ipv6 ==> echo_payload_len(payload_size as int) + 8 <= u32::MAX,
        !ipv6 ==> word_sum(
            echo_request_with(
                identifier,
                sequence,
                payload_size as int,
                ipv6,
                pmtud,
                timestamp,
                0,
            ),
        ) <= u32::MAX,
    ensures
        r@ == echo_request_spec(
            identifier,
            sequence,
            payload_size as int,
            ipv6,
            ipv6_addrs,
            pmtud,
            timestamp,
        ),
{
    let size: usize = if payload_size < MIN_PAYLOAD_SIZE {
        MIN_PAYLOAD_SIZE
    } else {
        payload_size
    };
    let mut buffer: Vec<u8> = Vec::with_capacity(ICMP_HEADER_SIZE + size);
    buffer.push(0);
    buffer.push(0);
    buffer.push(0);
    buffer.push(0);
    buffer.push(0);
    buffer.push(0);
    buffer.push(0);
    buffer.push(0);
    push_echo_payload(&mut buffer, identifier, sequence, size, pmtud, timestamp);
    set_echo_type(&mut buffer, if ipv6 { 128 } else { 8 });
    set_echo_code(&mut buffer, 0);
    set_echo_identifier(&mut buffer, identifier);
    set_echo_sequence(&mut buffer, sequence);
    let ghost unsummed = echo_request_with(
        identifier,
        sequence,
        payload_size as int,
        ipv6,
        pmtud,
        timestamp,
        0,
    );
    proof {
        assert(buffer@ =~= unsummed);
        assert(without_checksum(unsummed) =~= unsummed);
    }
    let cksum: u16 = if ipv6 {
        match ipv6_addrs {
            Some((src, dest)) => echo_checksum_v6(buffer.as_slice(), src, dest),
            None => 0,
        }
    } else {
        echo_checksum(buffer.as_slice())
    };
    set_echo_checksum(&mut buffer, cksum);
    assert(buffer@ =~= echo_request_with(
        identifier,
        sequence,
        payload_size as int,
        ipv6,
        pmtud,
        timestamp,
        cksum,
    ));
    buffer
}

/// Requests of up to 131,066 payload bytes, so every one that fits an IP
/// packet, can be built.
pub proof fn lemma_echo_request_fits(
    identifier: u16,
    sequence: u16,
    payload_size: int,
    ipv6: bool,
    pmtud: bool,
    timestamp: u32,
)
    requires
        0 <= payload_size <= 131_066,
    ensures
        word_sum(
            echo_request_with(identifier, sequence, payload_size, ipv6, pmtud, timestamp, 0),
        ) <= u32::MAX,
{
    lemma_word_sum_bound(
        echo_request_with(identifier, sequence, payload_size, ipv6, pmtud, timestamp, 0),
    );
}

/// A built ICMPv4 request sums to all ones, as receivers check.
pub proof fn law_echo_request_verifies(
    identifier: u16,
    sequence: u16,
    payload_size: int,
    pmtud: bool,
    timestamp: u32,
)
    ensures
        checksum_spec(
            echo_request_spec(identifier, sequence, payload_size, false, None, pmtud, timestamp),
        ) == 0,
{
    let unsummed = echo_request_with(
        identifier,
        sequence,
        payload_size,
        false,
        pmtud,
        timestamp,
        0,
    );
    let sum = checksum_spec(unsummed);
    assert(echo_request_spec(identifier, sequence, payload_size, false, None, pmtud, timestamp)
        =~= unsummed.update(2, hi8_spec(sum)).update(3, lo8_spec(sum)));
    crate::probe::rawip::law_checksum_self_verifies(unsummed, 2);
}

/// A built ICMPv6 request with addresses verifies: its words with those of
/// the pseudo-header sum to all ones.
pub proof fn law_echo_request_v6_verifies(
    identifier: u16,
    sequence: u16,
    payload_size: int,
    src: Ipv6Addr,
    dest: Ipv6Addr,
    pmtud: bool,
    timestamp: u32,
)
    ensures
        ({
            let request = echo_request_spec(
                identifier,
                sequence,
                payload_size,
                true,
                Some((src, dest)),
                pmtud,
                timestamp,
            );
            fold16(
                segment_sum(src.segments_spec()) + segment_sum(dest.segments_spec())
                    + request.len() + 58 + word_sum(request),
            ) == 0xFFFF
        }),
{
    let unsummed = echo_request_with(identifier, sequence, payload_size, true, pmtud, timestamp, 0);
    let total = message_sum_v6(unsummed, src, dest);
    let sum = (0xFFFF - fold16(total)) as u16;
    let request = echo_request_spec(
        identifier,
        sequence,
        payload_size,
        true,
        Some((src, dest)),
        pmtud,
        timestamp,
    );
    assert(without_checksum(unsummed) =~= unsummed);
    assert(request =~= unsummed.update(2, hi8_spec(sum)).update(3, lo8_spec(sum)));
    crate::probe::rawip::lemma_word_sum_fill(unsummed, 2, sum);
    crate::probe::rawip::lemma_fold16_complement(total);
}

} // verus!
