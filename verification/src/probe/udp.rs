//! Payloads of UDP probes.

use crate::state::ProbeId;
use crate::wire::{be16, be16_spec, hi8, hi8_spec, lo8, lo8_spec};
use vstd::prelude::*;

verus! {

/// UDP protocol number for IPv4/IPv6.
pub const IPPROTO_UDP: u8 = 17;

/// Minimum UDP payload size (header fields).
pub const MIN_UDP_PAYLOAD: usize = 8;

/// Default UDP payload size.
pub const DEFAULT_UDP_PAYLOAD: usize = 32;

/// Byte `i` of the payload of `probe_id`: the sequence field, the magic
/// number `54 54 4C`, the version, then a counting pattern.
pub open spec fn udp_payload_byte(probe_id: ProbeId, i: int) -> u8 {
    if i == 0 {
        hi8_spec(probe_id.sequence())
    } else if i == 1 {
        lo8_spec(probe_id.sequence())
    } else if i == 2 || i == 3 {
        0x54
    } else if i == 4 {
        0x4C
    } else if i == 5 {
        0x00
    } else {
        ((i - 6) % 256) as u8
    }
}

/// The payload of `probe_id`, `size` bytes long but at least the minimum.
pub open spec fn udp_payload_spec(probe_id: ProbeId, size: int) -> Seq<u8> {
    let n = if size < MIN_UDP_PAYLOAD {
        MIN_UDP_PAYLOAD as int
    } else {
        size
    };
    Seq::new(n as nat, |i: int| udp_payload_byte(probe_id, i))
}

/// Builds a UDP probe payload of the default size.
pub fn build_udp_payload(probe_id: ProbeId) -> (r: Vec<u8>)
    ensures
        r@ == udp_payload_spec(probe_id, DEFAULT_UDP_PAYLOAD as int),
{
    build_udp_payload_sized(probe_id, DEFAULT_UDP_PAYLOAD)
}

/// Builds a UDP probe payload of `size` bytes (at least the minimum). What
/// the probe header leaves is filled with a pattern.
pub fn build_udp_payload_sized(probe_id: ProbeId, size: usize) -> (r: Vec<u8>)
    ensures
        r@ == udp_payload_spec(probe_id, size as int),
{
    let size: usize = if size < MIN_UDP_PAYLOAD {
        MIN_UDP_PAYLOAD
    } else {
        size
    };
    let sequence: u16 = probe_id.to_sequence();
    let mut payload: Vec<u8> = Vec::new();
    payload.push(hi8(sequence));
    payload.push(lo8(sequence));
    payload.push(0x54);
    payload.push(0x54);
    payload.push(0x4C);
    payload.push(0x00);
    while payload.len() < size
        invariant
            6 <= payload.len() <= size,
            forall|i: int|
                0 <= i < payload.len() ==> #[trigger] payload@[i] == udp_payload_byte(probe_id, i),
        decreases size - payload.len(),
    {
        let byte: u8 = ((payload.len() - 6) % 256) as u8;
        payload.push(byte);
    }
    assert(payload@ =~= udp_payload_spec(probe_id, size as int));
    payload
}

/// The probe that a UDP payload belongs to: its first two bytes, of a payload
/// that carries the magic number. The version behind the number may be any.
pub open spec fn udp_probe_id(payload: Seq<u8>) -> Option<ProbeId> {
    if payload.len() >= 6 && payload[2] == 0x54 && payload[3] == 0x54 && payload[4] == 0x4C {
        Some(ProbeId::of_sequence(be16_spec(payload[0], payload[1])))
    } else {
        None
    }
}

/// Reads the probe identity out of a (quoted) UDP payload.
pub fn extract_probe_id_from_udp_payload(payload: &[u8]) -> (r: Option<ProbeId>)
    ensures
        r == udp_probe_id(payload@),
{
    if payload.len() < 6 {
        return None;
    }
    if payload[2] != 0x54 || payload[3] != 0x54 || payload[4] != 0x4C {
        return None;
    }
    Some(ProbeId::from_sequence(be16(payload[0], payload[1])))
}

/// The identity read out of a built payload, or out of any quote that holds
/// its first six bytes, is the one it was built with.
pub proof fn law_udp_payload_round_trip(probe_id: ProbeId, size: int, quoted: Seq<u8>)
    requires
        quoted.len() >= 6,
        quoted.take(6) == udp_payload_spec(probe_id, size).take(6),
    ensures
        udp_probe_id(quoted) == Some(probe_id),
        udp_probe_id(udp_payload_spec(probe_id, size)) == Some(probe_id),
{
    let built = udp_payload_spec(probe_id, size);
    assert forall|i: int| 0 <= i < 6 implies #[trigger] quoted[i] == built[i] by {
        assert(quoted[i] == quoted.take(6)[i]);
        assert(built[i] == built.take(6)[i]);
    }
}

} // verus!
