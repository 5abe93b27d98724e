//! IP addresses as plain numbers.

use vstd::prelude::*;

verus! {

/// An IPv4 address, its four octets read as one big-endian number.
#[derive(Clone, Copy, Debug, PartialEq, Eq, Hash, Structural)]
pub struct Ipv4Addr {
    pub bits: u32,
}

/// An IPv6 address, its sixteen octets read as one big-endian number.
#[derive(Clone, Copy, Debug, PartialEq, Eq, Hash, Structural)]
pub struct Ipv6Addr {
    pub bits: u128,
}

/// An IP address of either family.
#[derive(Clone, Copy, Debug, PartialEq, Eq, Hash, Structural)]
pub enum IpAddr {
    V4(Ipv4Addr),
    V6(Ipv6Addr),
}

/// Octet `i` of an IPv4 address, counted from the most significant one.
pub open spec fn v4_octet(bits: u32, i: int) -> u8 {
    if i == 0 {
        (bits / 0x100_0000) as u8
    } else if i == 1 {
        ((bits / 0x1_0000) % 256) as u8
    } else if i == 2 {
        ((bits / 0x100) % 256) as u8
    } else {
        (bits % 256) as u8
    }
}

/// The number whose four big-endian octets are given.
pub open spec fn v4_bits(a: u8, b: u8, c: u8, d: u8) -> u32 {
    (a * 0x100_0000 + b * 0x1_0000 + c * 0x100 + d) as u32
}

impl Ipv4Addr {
    /// The address `a.b.c.d`.
    pub fn new(a: u8, b: u8, c: u8, d: u8) -> (r: Ipv4Addr)
        ensures
            r.bits == v4_bits(a, b, c, d),
    {
        Ipv4Addr {
            bits: (a as u32) * 0x100_0000 + (b as u32) * 0x1_0000 + (c as u32) * 0x100 + (d as u32),
        }
    }

    /// The four octets, most significant first.
    pub open spec fn octets_spec(self) -> Seq<u8> {
        seq![
            v4_octet(self.bits, 0),
            v4_octet(self.bits, 1),
            v4_octet(self.bits, 2),
            v4_octet(self.bits, 3),
        ]
    }

    /// The four octets, most significant first.
    pub fn octets(&self) -> (r: [u8; 4])
        ensures
            r@ == self.octets_spec(),
    {
        let r: [u8; 4] = [
            (self.bits / 0x100_0000) as u8,
            ((self.bits / 0x1_0000) % 256) as u8,
            ((self.bits / 0x100) % 256) as u8,
            (self.bits % 256) as u8,
        ];
        assert(r@ =~= self.octets_spec());
        r
    }
}

/// The octets of `a.b.c.d` are `a`, `b`, `c` and `d`.
pub proof fn lemma_v4_octets(a: u8, b: u8, c: u8, d: u8)
    ensures
        (Ipv4Addr { bits: v4_bits(a, b, c, d) }).octets_spec() == seq![a, b, c, d],
{
    let bits = v4_bits(a, b, c, d);
    assert(bits == a * 0x100_0000 + b * 0x1_0000 + c * 0x100 + d);
    assert(bits / 0x100_0000 == a && (bits / 0x1_0000) % 256 == b && (bits / 0x100) % 256 == c
        && bits % 256 == d) by (bit_vector)
        requires
            bits == a * 0x100_0000 + b * 0x1_0000 + c * 0x100 + d,
    ;
    assert((Ipv4Addr { bits }).octets_spec() =~= seq![a, b, c, d]);
}

/// An IPv4 address is determined by its octets.
pub proof fn lemma_v4_octets_injective(a: Ipv4Addr, b: Ipv4Addr)
    requires
        a.octets_spec() == b.octets_spec(),
    ensures
        a == b,
{
    assert(a.octets_spec()[0] == b.octets_spec()[0]);
    assert(a.octets_spec()[1] == b.octets_spec()[1]);
    assert(a.octets_spec()[2] == b.octets_spec()[2]);
    assert(a.octets_spec()[3] == b.octets_spec()[3]);
}

/// The power of 65536 by which segment `i` (of eight, most significant first)
/// counts.
pub open spec fn v6_weight(i: int) -> u128 {
    if i == 0 {
        0x1_0000_0000_0000_0000_0000_0000_0000u128
    } else if i == 1 {
        0x1_0000_0000_0000_0000_0000_0000u128
    } else if i == 2 {
        0x1_0000_0000_0000_0000_0000u128
    } else if i == 3 {
        0x1_0000_0000_0000_0000u128
    } else if i == 4 {
        0x1_0000_0000_0000u128
    } else if i == 5 {
        0x1_0000_0000u128
    } else if i == 6 {
        0x1_0000u128
    } else {
        1u128
    }
}

/// Segment `i` of an IPv6 address, counted from the most significant one.
pub open spec fn v6_segment(bits: u128, i: int) -> u16 {
    ((bits / v6_weight(i)) % 0x1_0000) as u16
}

/// The number whose eight big-endian 16-bit segments are given.
pub open spec fn v6_bits(s: Seq<u16>) -> u128 {
    (s[0] * v6_weight(0) + s[1] * v6_weight(1) + s[2] * v6_weight(2) + s[3] * v6_weight(3) + s[4]
        * v6_weight(4) + s[5] * v6_weight(5) + s[6] * v6_weight(6) + s[7]) as u128
}

impl Ipv6Addr {
    /// The address with the given eight segments, most significant first.
    pub fn new(a: u16, b: u16, c: u16, d: u16, e: u16, f: u16, g: u16, h: u16) -> (r: Ipv6Addr)
        ensures
            r.bits == v6_bits(seq![a, b, c, d, e, f, g, h]),
    {
        Ipv6Addr {
            bits: (a as u128) * 0x1_0000_0000_0000_0000_0000_0000_0000u128 + (b as u128)
                * 0x1_0000_0000_0000_0000_0000_0000u128 + (c as u128)
                * 0x1_0000_0000_0000_0000_0000u128 + (d as u128) * 0x1_0000_0000_0000_0000u128 + (
            e as u128) * 0x1_0000_0000_0000u128 + (f as u128) * 0x1_0000_0000u128 + (g as u128)
                * 0x1_0000u128 + (h as u128),
        }
    }

    /// The eight segments, most significant first.
    pub open spec fn segments_spec(self) -> Seq<u16> {
        Seq::new(8, |i: int| v6_segment(self.bits, i))
    }

    /// The eight segments, most significant first.
    pub fn segments(&self) -> (r: [u16; 8])
        ensures
            r@ == self.segments_spec(),
    {
        let r: [u16; 8] = [
            ((self.bits / 0x1_0000_0000_0000_0000_0000_0000_0000u128) % 0x1_0000) as u16,
            ((self.bits / 0x1_0000_0000_0000_0000_0000_0000u128) % 0x1_0000) as u16,
            ((self.bits / 0x1_0000_0000_0000_0000_0000u128) % 0x1_0000) as u16,
            ((self.bits / 0x1_0000_0000_0000_0000u128) % 0x1_0000) as u16,
            ((self.bits / 0x1_0000_0000_0000u128) % 0x1_0000) as u16,
            ((self.bits / 0x1_0000_0000u128) % 0x1_0000) as u16,
            ((self.bits / 0x1_0000u128) % 0x1_0000) as u16,
            (self.bits % 0x1_0000) as u16,
        ];
        proof {
            assert(r@.len() == 8);
            assert(r@[0] == v6_segment(self.bits, 0));
            assert(r@[1] == v6_segment(self.bits, 1));
            assert(r@[2] == v6_segment(self.bits, 2));
            assert(r@[3] == v6_segment(self.bits, 3));
            assert(r@[4] == v6_segment(self.bits, 4));
            assert(r@[5] == v6_segment(self.bits, 5));
            assert(r@[6] == v6_segment(self.bits, 6));
            assert(r@[7] == v6_segment(self.bits, 7));
            assert(r@ =~= self.segments_spec());
        }
        r
    }
}

/// The segments of an address made of eight segments are those segments.
pub proof fn law_v6_segments_round_trip(s: Seq<u16>)
    requires
        s.len() == 8,
    ensures
        (Ipv6Addr { bits: v6_bits(s) }).segments_spec() == s,
{
    let bits = v6_bits(s);
    let (s0, s1, s2, s3, s4, s5, s6, s7) = (s[0], s[1], s[2], s[3], s[4], s[5], s[6], s[7]);
    assert(bits == s0 * 0x1_0000_0000_0000_0000_0000_0000_0000u128 + s1
        * 0x1_0000_0000_0000_0000_0000_0000u128 + s2 * 0x1_0000_0000_0000_0000_0000u128 + s3
        * 0x1_0000_0000_0000_0000u128 + s4 * 0x1_0000_0000_0000u128 + s5 * 0x1_0000_0000u128 + s6
        * 0x1_0000u128 + s7);
    assert(bits / 0x1_0000_0000_0000_0000_0000_0000_0000u128 == s0 && (bits
        / 0x1_0000_0000_0000_0000_0000_0000u128) % 0x1_0000 == s1 && (bits
        / 0x1_0000_0000_0000_0000_0000u128) % 0x1_0000 == s2 && (bits / 0x1_0000_0000_0000_0000u128)
        % 0x1_0000 == s3 && (bits / 0x1_0000_0000_0000u128) % 0x1_0000 == s4 && (bits
        / 0x1_0000_0000u128) % 0x1_0000 == s5 && (bits / 0x1_0000u128) % 0x1_0000 == s6 && bits
        % 0x1_0000 == s7) by (bit_vector)
        requires
            bits == s0 * 0x1_0000_0000_0000_0000_0000_0000_0000u128 + s1
                * 0x1_0000_0000_0000_0000_0000_0000u128 + s2 * 0x1_0000_0000_0000_0000_0000u128 + s3
                * 0x1_0000_0000_0000_0000u128 + s4 * 0x1_0000_0000_0000u128 + s5 * 0x1_0000_0000u128
                + s6 * 0x1_0000u128 + s7,
    ;
    assert(v6_segment(bits, 0) == s0);
    assert(v6_segment(bits, 1) == s1);
    assert(v6_segment(bits, 2) == s2);
    assert(v6_segment(bits, 3) == s3);
    assert(v6_segment(bits, 4) == s4);
    assert(v6_segment(bits, 5) == s5);
    assert(v6_segment(bits, 6) == s6);
    assert(bits / 1u128 == bits) by (nonlinear_arith);
    assert(v6_segment(bits, 7) == s7);
    assert((Ipv6Addr { bits }).segments_spec() =~= s);
}

/// An IPv6 address is the number made of its segments.
pub proof fn lemma_v6_of_segments(a: Ipv6Addr)
    ensures
        v6_bits(a.segments_spec()) == a.bits,
{
    let bits = a.bits;
    let s = a.segments_spec();
    let (s0, s1, s2, s3, s4, s5, s6, s7) = (s[0], s[1], s[2], s[3], s[4], s[5], s[6], s[7]);
    assert(bits / 1u128 == bits) by (nonlinear_arith);
    assert(s0 * 0x1_0000_0000_0000_0000_0000_0000_0000u128 + s1
        * 0x1_0000_0000_0000_0000_0000_0000u128 + s2 * 0x1_0000_0000_0000_0000_0000u128 + s3
        * 0x1_0000_0000_0000_0000u128 + s4 * 0x1_0000_0000_0000u128 + s5 * 0x1_0000_0000u128 + s6
        * 0x1_0000u128 + s7 == bits) by (bit_vector)
        requires
            s0 == (bits / 0x1_0000_0000_0000_0000_0000_0000_0000u128) % 0x1_0000,
            s1 == (bits / 0x1_0000_0000_0000_0000_0000_0000u128) % 0x1_0000,
            s2 == (bits / 0x1_0000_0000_0000_0000_0000u128) % 0x1_0000,
            s3 == (bits / 0x1_0000_0000_0000_0000u128) % 0x1_0000,
            s4 == (bits / 0x1_0000_0000_0000u128) % 0x1_0000,
            s5 == (bits / 0x1_0000_0000u128) % 0x1_0000,
            s6 == (bits / 0x1_0000u128) % 0x1_0000,
            s7 == bits % 0x1_0000,
    ;
}

impl IpAddr {
    /// Whether this is an IPv4 address.
    pub fn is_ipv4(&self) -> (r: bool)
        ensures
            r == (self is V4),
    {
        match self {
            IpAddr::V4(_) => true,
            IpAddr::V6(_) => false,
        }
    }

    /// Whether this is an IPv6 address.
    pub fn is_ipv6(&self) -> (r: bool)
        ensures
            r == (self is V6),
    {
        match self {
            IpAddr::V4(_) => false,
            IpAddr::V6(_) => true,
        }
    }
}

} // verus!
