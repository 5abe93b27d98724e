//! Header fields as the `pnet` packet views read and write them.

use crate::wire::{fold16, hi8_spec, lo8_spec, word_sum};
use pnet::packet::icmp::echo_request::MutableEchoRequestPacket;
use pnet::packet::icmp::{IcmpCode, IcmpPacket, IcmpType};
use pnet::packet::ipv4::Ipv4Packet;
use vstd::prelude::*;

verus! {

/// Bytes that an IPv4 header has at least.
pub const MIN_IPV4_HEADER: usize = 20;

/// Bytes that every ICMP message has at least for its common fields.
pub const MIN_ICMP_HEADER: usize = 4;

/// Bytes of an Echo Request without its payload.
pub const MIN_ECHO_HEADER: usize = 8;

/// `Ipv4Packet::get_header_length`: the low half of the first byte, of data
/// that is long enough for a header (`Ipv4Packet::new` takes no less).
#[verifier::external_body]
pub(crate) fn ipv4_header_length(data: &[u8]) -> (r: Option<u8>)
    ensures
        r == (if data@.len() >= MIN_IPV4_HEADER {
            Some((data@[0] % 16) as u8)
        } else {
            None
        }),
{
    Ipv4Packet::new(data).map(|p| p.get_header_length())
}

/// `Ipv4Packet::get_next_level_protocol`: byte 9, of data that is long enough
/// for a header.
#[verifier::external_body]
pub(crate) fn ipv4_protocol(data: &[u8]) -> (r: Option<u8>)
    ensures
        r == (if data@.len() >= MIN_IPV4_HEADER {
            Some(data@[9])
        } else {
            None
        }),
{
    Ipv4Packet::new(data).map(|p| p.get_next_level_protocol().0)
}

/// `Ipv4Packet::get_ttl`: byte 8, of data that is long enough for a header.
#[verifier::external_body]
pub(crate) fn ipv4_ttl(data: &[u8]) -> (r: Option<u8>)
    ensures
        r == (if data@.len() >= MIN_IPV4_HEADER {
            Some(data@[8])
        } else {
            None
        }),
{
    Ipv4Packet::new(data).map(|p| p.get_ttl())
}

/// `Ipv4Packet::get_destination`: bytes 16 to 19 as octets, of data that is
/// long enough for a header.
#[verifier::external_body]
pub(crate) fn ipv4_destination(data: &[u8]) -> (r: Option<[u8; 4]>)
    ensures
        r is Some <==> data@.len() >= MIN_IPV4_HEADER,
        r is Some ==> r->0@ == data@.subrange(16, 20),
{
    Ipv4Packet::new(data).map(|p| p.get_destination().octets())
}

/// `IcmpPacket::get_icmp_type`: the first byte, of data that is long enough
/// for the common ICMP fields.
#[verifier::external_body]
pub(crate) fn icmp_type(data: &[u8]) -> (r: Option<u8>)
    ensures
        r == (if data@.len() >= MIN_ICMP_HEADER {
            Some(data@[0])
        } else {
            None
        }),
{
    IcmpPacket::new(data).map(|p| p.get_icmp_type().0)
}

/// `IcmpPacket::get_icmp_code`: the second byte, of data that is long enough
/// for the common ICMP fields.
#[verifier::external_body]
pub(crate) fn icmp_code(data: &[u8]) -> (r: Option<u8>)
    ensures
        r == (if data@.len() >= MIN_ICMP_HEADER {
            Some(data@[1])
        } else {
            None
        }),
{
    IcmpPacket::new(data).map(|p| p.get_icmp_code().0)
}

/// `pnet::packet::icmp::checksum`: the complement of the folded sum of all
/// 16-bit words but the checksum field itself. The sum is kept in 32 bits and
/// must fit there.
#[verifier::external_body]
pub(crate) fn echo_checksum(data: &[u8]) -> (r: u16)
    requires
        data@.len() >= MIN_ICMP_HEADER,
        word_sum(data@) <= u32::MAX,
    ensures
        r == 0xFFFF - fold16(word_sum(data@.update(2, 0).update(3, 0))),
{
    pnet::packet::icmp::checksum(&IcmpPacket::new(data).unwrap())
}

/// `MutableEchoRequestPacket::set_icmp_type`: writes the first byte.
#[verifier::external_body]
pub(crate) fn set_echo_type(buffer: &mut Vec<u8>, value: u8)
    requires
        old(buffer)@.len() >= MIN_ECHO_HEADER,
    ensures
        final(buffer)@ == old(buffer)@.update(0, value),
{
    MutableEchoRequestPacket::new(buffer).unwrap().set_icmp_type(IcmpType::new(value));
}

/// `MutableEchoRequestPacket::set_icmp_code`: writes the second byte.
#[verifier::external_body]
pub(crate) fn set_echo_code(buffer: &mut Vec<u8>, value: u8)
    requires
        old(buffer)@.len() >= MIN_ECHO_HEADER,
    ensures
        final(buffer)@ == old(buffer)@.update(1, value),
{
    MutableEchoRequestPacket::new(buffer).unwrap().set_icmp_code(IcmpCode::new(value));
}

/// `MutableEchoRequestPacket::set_checksum`: writes bytes 2 and 3, big-endian.
#[verifier::external_body]
pub(crate) fn set_echo_checksum(buffer: &mut Vec<u8>, value: u16)
    requires
        old(buffer)@.len() >= MIN_ECHO_HEADER,
    ensures
        final(buffer)@ == old(buffer)@.update(2, hi8_spec(value)).update(3, lo8_spec(value)),
{
    MutableEchoRequestPacket::new(buffer).unwrap().set_checksum(value);
}

/// `MutableEchoRequestPacket::set_identifier`: writes bytes 4 and 5,
/// big-endian.
#[verifier::external_body]
pub(crate) fn set_echo_identifier(buffer: &mut Vec<u8>, value: u16)
    requires
        old(buffer)@.len() >= MIN_ECHO_HEADER,
    ensures
        final(buffer)@ == old(buffer)@.update(4, hi8_spec(value)).update(5, lo8_spec(value)),
{
    MutableEchoRequestPacket::new(buffer).unwrap().set_identifier(value);
}

/// `MutableEchoRequestPacket::set_sequence_number`: writes bytes 6 and 7,
/// big-endian.
#[verifier::external_body]
pub(crate) fn set_echo_sequence(buffer: &mut Vec<u8>, value: u16)
    requires
        old(buffer)@.len() >= MIN_ECHO_HEADER,
    ensures
        final(buffer)@ == old(buffer)@.update(6, hi8_spec(value)).update(7, lo8_spec(value)),
{
    MutableEchoRequestPacket::new(buffer).unwrap().set_sequence_number(value);
}

} // verus!
