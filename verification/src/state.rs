//! Values that probes, responses and sessions are made of.

use crate::addr::IpAddr;
use vstd::prelude::*;

verus! {

/// Which probe a packet belongs to: its TTL and its sequence number there.
#[derive(Clone, Copy, Debug, PartialEq, Eq, Hash, Structural)]
pub struct ProbeId {
    pub ttl: u8,
    pub seq: u8,
}

impl ProbeId {
    /// The identifier as a 16-bit sequence field: TTL in the high byte.
    pub open spec fn sequence(self) -> u16 {
        (self.ttl * 256 + self.seq) as u16
    }

    /// The identifier that a 16-bit sequence field stands for.
    pub open spec fn of_sequence(sequence: u16) -> ProbeId {
        ProbeId { ttl: (sequence / 256) as u8, seq: (sequence % 256) as u8 }
    }

    /// The probe `seq` at `ttl`.
    pub fn new(ttl: u8, seq: u8) -> (r: ProbeId)
        ensures
            r == (ProbeId { ttl, seq }),
    {
        ProbeId { ttl, seq }
    }

    /// Packs the identifier into a 16-bit sequence field.
    pub fn to_sequence(&self) -> (r: u16)
        ensures
            r == self.sequence(),
    {
        (self.ttl as u16) * 256 + (self.seq as u16)
    }

    /// Unpacks a 16-bit sequence field.
    pub fn from_sequence(sequence: u16) -> (r: ProbeId)
        ensures
            r == ProbeId::of_sequence(sequence),
    {
        ProbeId { ttl: (sequence / 256) as u8, seq: (sequence % 256) as u8 }
    }
}

/// Packing an identifier into a sequence field and unpacking it gives the
/// identifier back.
pub proof fn law_probe_id_round_trip(id: ProbeId)
    ensures
        ProbeId::of_sequence(id.sequence()) == id,
{
}

/// Every sequence field stands for exactly one identifier.
pub proof fn law_sequence_round_trip(sequence: u16)
    ensures
        ProbeId::of_sequence(sequence).sequence() == sequence,
{
}

/// What kind of ICMP message answered a probe.
#[derive(Clone, Copy, Debug, PartialEq, Eq, Structural)]
pub enum IcmpResponseType {
    /// The target itself answered.
    EchoReply,
    /// A router dropped the probe as its TTL ran out; holds the ICMP code.
    TimeExceeded(u8),
    /// The probe could not be delivered; holds the ICMP code.
    DestUnreachable(u8),
    /// An IPv6 router dropped the probe as too large.
    PacketTooBig,
}

/// One entry of an MPLS label stack (RFC 4950).
#[derive(Clone, Copy, Debug, PartialEq, Eq, Structural)]
pub struct MplsLabel {
    /// Label value, 20 bits.
    pub label: u32,
    /// Traffic class, 3 bits.
    pub exp: u8,
    /// Whether this is the bottom of the stack.
    pub bottom: bool,
    /// Time to live of the label.
    pub ttl: u8,
}

impl MplsLabel {
    /// The entry that a 32-bit label word stands for: 20 bits of label, 3 of
    /// traffic class, the bottom-of-stack bit, 8 of TTL.
    pub open spec fn of_word(word: u32) -> MplsLabel {
        MplsLabel {
            label: word / 0x1000,
            exp: ((word / 0x200) % 8) as u8,
            bottom: (word / 0x100) % 2 == 1,
            ttl: (word % 0x100) as u8,
        }
    }

    /// The 32-bit word of an entry.
    pub open spec fn word(self) -> u32 {
        (self.label * 0x1000 + self.exp * 0x200 + (if self.bottom {
            0x100int
        } else {
            0
        }) + self.ttl) as u32
    }

    /// Whether label and traffic class are in range.
    pub open spec fn in_range(self) -> bool {
        self.label < 0x10_0000 && self.exp < 8
    }

    /// Reads an entry from its four big-endian bytes.
    pub fn from_bytes(bytes: &[u8; 4]) -> (r: MplsLabel)
        ensures
            r == MplsLabel::of_word(
                crate::wire::be32_spec(bytes[0], bytes[1], bytes[2], bytes[3]),
            ),
            r.in_range(),
    {
        let word: u32 = crate::wire::be32(bytes[0], bytes[1], bytes[2], bytes[3]);
        MplsLabel {
            label: word / 0x1000,
            exp: ((word / 0x200) % 8) as u8,
            bottom: (word / 0x100) % 2 == 1,
            ttl: (word % 0x100) as u8,
        }
    }
}

/// A label entry in range survives being written as a word and read back.
pub proof fn law_mpls_round_trip(label: MplsLabel)
    requires
        label.in_range(),
    ensures
        MplsLabel::of_word(label.word()) == label,
{
    let value: u32 = label.label;
    let exp: u32 = label.exp as u32;
    let bottom: u32 = if label.bottom {
        1
    } else {
        0
    };
    let ttl: u32 = label.ttl as u32;
    let word: u32 = label.word();
    assert(word / 0x1000 == value && (word / 0x200) % 8 == exp && (word / 0x100) % 2 == bottom
        && word % 0x100 == ttl) by (bit_vector)
        requires
            word == value * 0x1000 + exp * 0x200 + bottom * 0x100 + ttl,
            value < 0x10_0000,
            exp < 8,
            bottom < 2,
            ttl < 256,
    ;
}

/// Every word is the word of the entry it stands for.
pub proof fn law_mpls_word_round_trip(word: u32)
    ensures
        MplsLabel::of_word(word).in_range(),
        MplsLabel::of_word(word).word() == word,
{
    let label: u32 = word / 0x1000;
    let exp: u32 = (word / 0x200) % 8;
    let bottom: u32 = (word / 0x100) % 2;
    let ttl: u32 = word % 0x100;
    assert(label * 0x1000 + exp * 0x200 + bottom * 0x100 + ttl == word) by (bit_vector)
        requires
            label == word / 0x1000,
            exp == (word / 0x200) % 8,
            bottom == (word / 0x100) % 2,
            ttl == word % 0x100,
    ;
}

/// How a probe ended.
#[derive(Clone, Copy, Debug, PartialEq, Eq, Structural)]
pub enum ProbeOutcome {
    /// Answered in time.
    Reply { addr: IpAddr, rtt_us: u64 },
    /// Not answered in time.
    Timeout,
    /// Answered after it had been given up.
    LateReply { addr: IpAddr, rtt_us: u64 },
}

/// A probe's end, for replay.
#[derive(Clone, Copy, Debug, PartialEq, Eq, Structural)]
pub struct ProbeEvent {
    /// Milliseconds since the session started.
    pub offset_ms: u64,
    pub ttl: u8,
    pub seq: u8,
    pub flow_id: u8,
    pub outcome: ProbeOutcome,
}

/// Phase of path-MTU discovery.
#[derive(Clone, Copy, Debug, PartialEq, Eq, Structural)]
pub enum PmtudPhase {
    /// The distance to the target is not known yet.
    WaitingForDestination,
    /// Sizes are being tried.
    Searching,
    /// There is a result, or there will be none.
    Complete,
}

/// State of path-MTU discovery.
#[derive(Clone, Copy, Debug, PartialEq, Eq, Structural)]
pub struct PmtudState {
    pub phase: PmtudPhase,
    /// Largest size known to pass.
    pub min_size: u16,
    /// Largest size that may pass.
    pub max_size: u16,
    /// Size being tried.
    pub current_size: u16,
    /// Answers at the current size.
    pub successes: u32,
    /// Failures at the current size.
    pub failures: u32,
    pub discovered_mtu: Option<u16>,
}

impl PmtudState {
    /// Whether a probe of this size is the one that the search waits for.
    pub open spec fn awaits(self, size: u16) -> bool {
        self.phase == PmtudPhase::Searching && size == self.current_size
    }
}

} // verus!
