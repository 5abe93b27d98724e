//! Autonomous systems by Team Cymru's DNS service: names to ask for, and
//! what the answers say.

use crate::addr::{lemma_v6_of_segments, v4_octet, IpAddr, Ipv4Addr, Ipv6Addr};
use crate::fields::{
    field, nth_field, parse_number, parsed_number, strip_end, strip_start, strip_word,
    stripped_end, stripped_start, stripped_word, trim, trimmed,
};
use crate::lookup::display::{sanitize_display, sanitized};
use crate::text::{
    chars_of, decimal, digit_value, opt_text, push_decimal, push_text, string_of, texts, utf8_text,
};
use vstd::prelude::*;

verus! {

/// Maximum concurrent lookups.
pub const MAX_CONCURRENT_LOOKUPS: usize = 10;

/// An autonomous system that announces an address.
#[derive(Debug, Clone)]
pub struct AsnInfo {
    /// AS number.
    pub number: u32,
    /// AS name.
    pub name: String,
    /// Announced prefix.
    pub prefix: Option<String>,
}

/// The query for an IPv4 address: its octets in reverse.
pub open spec fn ipv4_query(ip: Ipv4Addr) -> Seq<char> {
    decimal(v4_octet(ip.bits, 3) as nat) + "."@ + decimal(v4_octet(ip.bits, 2) as nat) + "."@
        + decimal(v4_octet(ip.bits, 1) as nat) + "."@ + decimal(v4_octet(ip.bits, 0) as nat)
        + ".origin.asn.cymru.com"@
}

/// Builds the query for an IPv4 address (octets in reverse).
pub fn build_ipv4_origin_query(ip: Ipv4Addr) -> (r: String)
    ensures
        r@ == ipv4_query(ip),
{
    let octets: [u8; 4] = ip.octets();
    let mut out: String = String::new();
    push_decimal(&mut out, octets[3] as u64);
    push_text(&mut out, ".");
    push_decimal(&mut out, octets[2] as u64);
    push_text(&mut out, ".");
    push_decimal(&mut out, octets[1] as u64);
    push_text(&mut out, ".");
    push_decimal(&mut out, octets[0] as u64);
    push_text(&mut out, ".origin.asn.cymru.com");
    assert(out@ =~= ipv4_query(ip));
    out
}

/// The lower-case hexadecimal digit for a number below sixteen.
pub open spec fn hex_char(n: nat) -> char {
    if n < 10 {
        crate::text::digit_char(n)
    } else if n == 10 {
        'a'
    } else if n == 11 {
        'b'
    } else if n == 12 {
        'c'
    } else if n == 13 {
        'd'
    } else if n == 14 {
        'e'
    } else {
        'f'
    }
}

/// The lower-case hexadecimal digit for a number below sixteen.
pub fn hex_digit(n: u16) -> (r: char)
    requires
        n < 16,
    ensures
        r == hex_char(n as nat),
{
    if n < 10 {
        crate::text::digit(n as u64)
    } else if n == 10 {
        'a'
    } else if n == 11 {
        'b'
    } else if n == 12 {
        'c'
    } else if n == 13 {
        'd'
    } else if n == 14 {
        'e'
    } else {
        'f'
    }
}

/// Nibble `i` (of 32, least significant first) of an IPv6 address.
pub open spec fn nibble(ip: Ipv6Addr, i: int) -> nat {
    let segment = ip.segments_spec()[7 - i / 4] as nat;
    if i % 4 == 0 {
        segment % 16
    } else if i % 4 == 1 {
        (segment / 16) % 16
    } else if i % 4 == 2 {
        (segment / 256) % 16
    } else {
        segment / 4096
    }
}

/// The first `n` nibbles of an IPv6 address, least significant first, each
/// followed by a dot.
pub open spec fn nibbles(ip: Ipv6Addr, n: nat) -> Seq<char>
    decreases n,
{
    if n == 0 {
        Seq::empty()
    } else {
        nibbles(ip, (n - 1) as nat).push(hex_char(nibble(ip, n - 1))).push('.')
    }
}

/// The query for an IPv6 address: its nibbles in reverse.
pub open spec fn ipv6_query(ip: Ipv6Addr) -> Seq<char> {
    nibbles(ip, 32) + "origin6.asn.cymru.com"@
}

/// Builds the query for an IPv6 address (nibbles in reverse).
pub fn build_ipv6_origin_query(ip: Ipv6Addr) -> (r: String)
    ensures
        r@ == ipv6_query(ip),
{
    let segments: [u16; 8] = ip.segments();
    let mut out: String = String::new();
    let mut i: usize = 0;
    while i < 32
        invariant
            i <= 32,
            segments@ == ip.segments_spec(),
            out@ =~= nibbles(ip, i as nat),
        decreases 32 - i,
    {
        let segment: u16 = segments[7 - i / 4];
        let value: u16 = if i % 4 == 0 {
            segment % 16
        } else if i % 4 == 1 {
            (segment / 16) % 16
        } else if i % 4 == 2 {
            (segment / 256) % 16
        } else {
            segment / 4096
        };
        assert(value as nat == nibble(ip, i as int));
        out.push(hex_digit(value));
        out.push('.');
        i = i + 1;
    }
    push_text(&mut out, "origin6.asn.cymru.com");
    out
}

/// The query for an address.
pub open spec fn origin_query(ip: IpAddr) -> Seq<char> {
    match ip {
        IpAddr::V4(v4) => ipv4_query(v4),
        IpAddr::V6(v6) => ipv6_query(v6),
    }
}

/// Builds the DNS name to ask for the origin of an address.
pub fn build_origin_query(ip: IpAddr) -> (r: String)
    ensures
        r@ == origin_query(ip),
{
    match ip {
        IpAddr::V4(v4) => build_ipv4_origin_query(v4),
        IpAddr::V6(v6) => build_ipv6_origin_query(v6),
    }
}

/// The query for the name of an AS.
pub open spec fn name_query(asn: u32) -> Seq<char> {
    "AS"@ + decimal(asn as nat) + ".asn.cymru.com"@
}

/// Builds the DNS name to ask for the name of an AS.
pub fn build_name_query(asn: u32) -> (r: String)
    ensures
        r@ == name_query(asn),
{
    let mut out: String = String::new();
    push_text(&mut out, "AS");
    push_decimal(&mut out, asn as u64);
    push_text(&mut out, ".asn.cymru.com");
    assert(out@ =~= name_query(asn));
    out
}

/// The chunks of a TXT record as one text.
pub open spec fn joined(chunks: Seq<String>) -> Seq<char>
    decreases chunks.len(),
{
    if chunks.len() == 0 {
        Seq::empty()
    } else {
        joined(chunks.drop_last()) + chunks.last()@
    }
}

/// Text without the double quotes around it.
pub open spec fn unquoted(s: Seq<char>) -> Seq<char> {
    stripped_end(stripped_start(s, '"'), '"')
}

/// The texts of those chunks of a TXT record that are valid UTF-8, in order.
pub open spec fn readable(chunks: Seq<Vec<u8>>) -> Seq<Seq<char>>
    decreases chunks.len(),
{
    if chunks.len() == 0 {
        Seq::empty()
    } else {
        let before = readable(chunks.drop_last());
        if vstd::utf8::valid_utf8(chunks.last()@) {
            before.push(vstd::utf8::decode_utf8(chunks.last()@))
        } else {
            before
        }
    }
}

/// The chunks of a TXT record as text; those that are not valid UTF-8 are
/// passed over.
pub fn readable_chunks(chunks: &Vec<Vec<u8>>) -> (r: Vec<String>)
    ensures
        texts(r@) == readable(chunks@),
{
    let mut out: Vec<String> = Vec::new();
    let mut i: usize = 0;
    assert(texts(out@) =~= Seq::empty());
    while i < chunks.len()
        invariant
            i <= chunks.len(),
            texts(out@) == readable(chunks@.take(i as int)),
        decreases chunks.len() - i,
    {
        assert(chunks@.take(i + 1).drop_last() =~= chunks@.take(i as int));
        if let Some(text) = utf8_text(chunks[i].as_slice()) {
            let ghost before = texts(out@);
            let ghost shown = text@;
            out.push(text);
            assert(texts(out@) =~= before.push(shown));
        }
        i = i + 1;
    }
    assert(chunks@.take(chunks@.len() as int) =~= chunks@);
    out
}

/// The text of a TXT record: its chunks together, without quotes around.
pub fn record_text(chunks: &Vec<String>) -> (r: Vec<char>)
    ensures
        r@ == unquoted(joined(chunks@)),
{
    let mut all: String = String::new();
    let mut i: usize = 0;
    while i < chunks.len()
        invariant
            i <= chunks.len(),
            all@ == joined(chunks@.take(i as int)),
        decreases chunks.len() - i,
    {
        assert(chunks@.take(i + 1).drop_last() =~= chunks@.take(i as int));
        push_text(&mut all, chunks[i].as_str());
        i = i + 1;
    }
    assert(chunks@.take(chunks@.len() as int) =~= chunks@);
    let chars: Vec<char> = chars_of(all.as_str());
    strip_end(&strip_start(&chars, '"'), '"')
}

/// The trimmed field `n` of a record.
pub open spec fn record_field(text: Seq<char>, n: nat) -> Option<Seq<char>> {
    match field(text, '|', n) {
        Some(f) => Some(trimmed(f)),
        None => None,
    }
}

/// Reads a trimmed field of a record.
fn read_field(text: &Vec<char>, n: usize) -> (r: Option<Vec<char>>)
    ensures
        match record_field(text@, n as nat) {
            Some(f) => r is Some && r->0@ == f,
            None => r is None,
        },
{
    match nth_field(text, '|', n) {
        Some(f) => Some(trim(&f)),
        None => None,
    }
}

/// What an origin record says: the AS number (with or without `AS` in front)
/// and the announced prefix, if there is a third field.
pub open spec fn origin_answer(text: Seq<char>) -> Option<(u32, Option<Seq<char>>)> {
    match parsed_number(
        trimmed(stripped_word(record_field(text, 0)->0, 'A', 'S')),
        u32::MAX as nat,
    ) {
        Some(n) => Some((n as u32, record_field(text, 2))),
        None => None,
    }
}

/// Reads an origin record, such as
/// `15169 | 8.8.8.8 | 8.8.8.0/24 | US | arin | 1992-12-01`.
pub fn parse_origin(chunks: &Vec<String>) -> (r: Option<(u32, Option<String>)>)
    ensures
        match origin_answer(unquoted(joined(chunks@))) {
            Some((number, prefix)) => r matches Some(answer) && answer.0 == number && opt_text(
                answer.1,
            ) == prefix,
            None => r is None,
        },
{
    let text: Vec<char> = record_text(chunks);
    let first: Vec<char> = match read_field(&text, 0) {
        Some(f) => f,
        None => return None,
    };
    let digits: Vec<char> = trim(&strip_word(&first, 'A', 'S'));
    let number: u32 = match parse_number(&digits, 0xFFFF_FFFF) {
        Some(n) => n as u32,
        None => return None,
    };
    let prefix: Option<String> = match read_field(&text, 2) {
        Some(f) => Some(string_of(&f)),
        None => None,
    };
    Some((number, prefix))
}

/// What a name record says: its fifth field, without control characters.
pub open spec fn name_answer(text: Seq<char>) -> Option<Seq<char>> {
    match record_field(text, 4) {
        Some(f) => Some(sanitized(f)),
        None => None,
    }
}

/// Reads a name record, such as
/// `15169 | US | arin | 2000-03-30 | GOOGLE, US`.
pub fn parse_as_name(chunks: &Vec<String>) -> (r: Option<String>)
    ensures
        opt_text(r) == name_answer(unquoted(joined(chunks@))),
{
    let text: Vec<char> = record_text(chunks);
    match read_field(&text, 4) {
        Some(f) => Some(sanitize_display(string_of(&f).as_str())),
        None => None,
    }
}

/// Puts the two answers together; an AS without a name is called by its
/// number.
pub fn asn_info(number: u32, prefix: Option<String>, name: Option<String>) -> (r: AsnInfo)
    ensures
        r.number == number,
        r.prefix == prefix,
        r.name@ == (match name {
            Some(n) => n@,
            None => "AS"@ + decimal(number as nat),
        }),
{
    let name: String = match name {
        Some(n) => n,
        None => {
            let mut out: String = String::new();
            push_text(&mut out, "AS");
            push_decimal(&mut out, number as u64);
            assert(out@ =~= "AS"@ + decimal(number as nat));
            out
        },
    };
    AsnInfo { number, name, prefix }
}

/// The number that hexadecimal digits stand for, the least significant first.
pub open spec fn reversed_number(digits: Seq<char>) -> int
    decreases digits.len(),
{
    if digits.len() == 0 {
        0
    } else {
        digit_value(digits[0]) + 16 * reversed_number(digits.skip(1))
    }
}

/// The digits in a query, and the dots between them.
proof fn lemma_nibbles(ip: Ipv6Addr, n: nat)
    ensures
        nibbles(ip, n).len() == 2 * n,
        forall|j: int|
            0 <= j < 2 * n ==> #[trigger] nibbles(ip, n)[j] == (if j % 2 == 0 {
                hex_char(nibble(ip, j / 2))
            } else {
                '.'
            }),
    decreases n,
{
    if n > 0 {
        lemma_nibbles(ip, (n - 1) as nat);
    }
}

/// A number of 16 bits is made up of its four digits.
proof fn lemma_digits_of_number(s: u16)
    ensures
        s == s % 16 + 16 * ((s / 16) % 16) + 256 * ((s / 256) % 16) + 4096 * (s / 4096),
{
    assert(s == s % 16 + 16 * ((s / 16) % 16) + 256 * ((s / 256) % 16) + 4096 * (s / 4096))
        by (bit_vector);
}

/// Digits in front of a number, place by place.
proof fn lemma_places(a: int, b: int, c: int, d: int, rest: int)
    ensures
        a + 16 * (b + 16 * (c + 16 * (d + 16 * rest))) == a + 16 * b + 256 * c + 4096 * d + 0x1_0000
            * rest,
{
}

/// Four digits of one segment in front of others.
#[verifier::spinoff_prover]
proof fn lemma_four_digits(d: Seq<char>, segment: u16)
    requires
        d.len() >= 4,
        digit_value(d[0]) == segment % 16,
        digit_value(d[1]) == (segment / 16) % 16,
        digit_value(d[2]) == (segment / 256) % 16,
        digit_value(d[3]) == segment / 4096,
    ensures
        reversed_number(d) == segment + 0x1_0000 * reversed_number(d.skip(4)),
{
    let d1 = d.skip(1);
    let d2 = d.skip(2);
    let d3 = d.skip(3);
    let d4 = d.skip(4);
    assert(d1.skip(1) =~= d2 && d2.skip(1) =~= d3 && d3.skip(1) =~= d4);
    assert(reversed_number(d) == digit_value(d[0]) + 16 * reversed_number(d1));
    assert(reversed_number(d1) == digit_value(d1[0]) + 16 * reversed_number(d2));
    assert(reversed_number(d2) == digit_value(d2[0]) + 16 * reversed_number(d3));
    assert(reversed_number(d3) == digit_value(d3[0]) + 16 * reversed_number(d4));
    lemma_places(
        digit_value(d[0]),
        digit_value(d[1]),
        digit_value(d[2]),
        digit_value(d[3]),
        reversed_number(d4),
    );
    lemma_digits_of_number(segment);
}

/// The digits of segment `7 - k` in front of those of the ones before it.
proof fn lemma_segment_digits(digits: Seq<char>, ip: Ipv6Addr, k: int)
    requires
        0 <= k < 8,
        digits.len() == 32,
        forall|i: int| 0 <= i < 32 ==> #[trigger] digits[i] == hex_char(nibble(ip, i)),
    ensures
        reversed_number(digits.skip(4 * k)) == ip.segments_spec()[7 - k] + 0x1_0000
            * reversed_number(digits.skip(4 * k + 4)),
{
    let segment = ip.segments_spec()[7 - k];
    let d = digits.skip(4 * k);
    let i = 4 * k;
    assert(d[0] == digits[i] && d[1] == digits[i + 1] && d[2] == digits[i + 2] && d[3]
        == digits[i + 3]);
    assert(i / 4 == k && (i + 1) / 4 == k && (i + 2) / 4 == k && (i + 3) / 4 == k);
    lemma_hex_char((segment % 16) as nat);
    lemma_hex_char(((segment / 16) % 16) as nat);
    lemma_hex_char(((segment / 256) % 16) as nat);
    lemma_hex_char((segment / 4096) as nat);
    lemma_four_digits(d, segment);
    assert(d.skip(4) =~= digits.skip(4 * k + 4));
}

/// A hexadecimal digit has the value it was written for.
proof fn lemma_hex_char(n: nat)
    requires
        n < 16,
    ensures
        digit_value(hex_char(n)) == n,
        '0' <= hex_char(n) <= '9' || 'a' <= hex_char(n) <= 'f',
{
}

/// The query for an IPv6 address holds 32 hexadecimal digits, each followed
/// by a dot, and then the zone. The digits, read with the least significant
/// one first, are the number that the address is.
pub proof fn law_ipv6_query_read_back(ip: Ipv6Addr, query: String)
    requires
        call_ensures(build_ipv6_origin_query, (ip,), query),
    ensures
        query@.len() > 64,
        forall|i: int|
            0 <= i < 64 ==> if i % 2 == 1 {
                #[trigger] query@[i] == '.'
            } else {
                '0' <= query@[i] <= '9' || 'a' <= query@[i] <= 'f'
            },
        query@.skip(64) == "origin6.asn.cymru.com"@,
        reversed_number(Seq::new(32, |i: int| query@[2 * i])) == ip.bits,
{
    lemma_v6_query(ip, query@);
}

/// What the query for an IPv6 address holds.
proof fn lemma_v6_query(ip: Ipv6Addr, query: Seq<char>)
    requires
        query == ipv6_query(ip),
    ensures
        query.len() > 64,
        forall|i: int|
            0 <= i < 64 ==> if i % 2 == 1 {
                #[trigger] query[i] == '.'
            } else {
                '0' <= query[i] <= '9' || 'a' <= query[i] <= 'f'
            },
        query.skip(64) == "origin6.asn.cymru.com"@,
        reversed_number(Seq::new(32, |i: int| query[2 * i])) == ip.bits,
{
    let zone = "origin6.asn.cymru.com"@;
    reveal_strlit("origin6.asn.cymru.com");
    lemma_nibbles(ip, 32);
    let front = nibbles(ip, 32);
    assert(query == front + zone);
    assert(query.skip(64) =~= zone);
    let digits = Seq::new(32, |i: int| query[2 * i]);
    assert forall|i: int| 0 <= i < 64 implies if i % 2 == 1 {
        #[trigger] query[i] == '.'
    } else {
        '0' <= query[i] <= '9' || 'a' <= query[i] <= 'f'
    } by {
        assert(query[i] == front[i]);
        lemma_nibble_small(ip, i / 2);
        lemma_hex_char(nibble(ip, i / 2));
    }
    assert forall|i: int| 0 <= i < 32 implies #[trigger] digits[i] == hex_char(nibble(ip, i)) by {
        assert(digits[i] == query[2 * i]);
        assert(query[2 * i] == front[2 * i]);
    }
    let s = ip.segments_spec();
    lemma_segment_digits(digits, ip, 0);
    lemma_segment_digits(digits, ip, 1);
    lemma_segment_digits(digits, ip, 2);
    lemma_segment_digits(digits, ip, 3);
    lemma_segment_digits(digits, ip, 4);
    lemma_segment_digits(digits, ip, 5);
    lemma_segment_digits(digits, ip, 6);
    lemma_segment_digits(digits, ip, 7);
    assert(digits.skip(0) =~= digits);
    assert(reversed_number(digits.skip(32)) == 0);
    lemma_v6_of_segments(ip);
    lemma_v6_total(s);
}

/// A nibble is below sixteen.
proof fn lemma_nibble_small(ip: Ipv6Addr, i: int)
    ensures
        nibble(ip, i) < 16,
{
}

/// The sum that eight segments make fits an address.
proof fn lemma_v6_total(s: Seq<u16>)
    requires
        s.len() == 8,
    ensures
        crate::addr::v6_bits(s) == s[7] + 0x1_0000 * (s[6] + 0x1_0000 * (s[5] + 0x1_0000 * (s[4]
            + 0x1_0000 * (s[3] + 0x1_0000 * (s[2] + 0x1_0000 * (s[1] + 0x1_0000 * s[0])))))),
{
    let (s0, s1, s2, s3, s4, s5, s6, s7) = (s[0], s[1], s[2], s[3], s[4], s[5], s[6], s[7]);
    assert(crate::addr::v6_bits(s) == s0 * 0x1_0000_0000_0000_0000_0000_0000_0000u128 + s1
        * 0x1_0000_0000_0000_0000_0000_0000u128 + s2 * 0x1_0000_0000_0000_0000_0000u128 + s3
        * 0x1_0000_0000_0000_0000u128 + s4 * 0x1_0000_0000_0000u128 + s5 * 0x1_0000_0000u128 + s6
        * 0x1_0000u128 + s7);
}

/// Different IPv6 addresses are asked for by different queries.
pub proof fn law_ipv6_queries_differ(a: Ipv6Addr, b: Ipv6Addr, query: String)
    requires
        call_ensures(build_ipv6_origin_query, (a,), query),
        call_ensures(build_ipv6_origin_query, (b,), query),
    ensures
        a == b,
{
    law_ipv6_query_read_back(a, query);
    law_ipv6_query_read_back(b, query);
}

/// The query for the IPv4 address `a.b.c.d` names `d`, `c`, `b` and `a` in
/// decimal, and then the zone.
pub proof fn law_ipv4_query_reversed(ip: Ipv4Addr, a: u8, b: u8, c: u8, d: u8, query: String)
    requires
        call_ensures(build_ipv4_origin_query, (ip,), query),
        ip.bits == a * 0x100_0000 + b * 0x1_0000 + c * 0x100 + d,
    ensures
        query@ == decimal(d as nat) + "."@ + decimal(c as nat) + "."@ + decimal(b as nat) + "."@
            + decimal(a as nat) + ".origin.asn.cymru.com"@,
{
    crate::addr::lemma_v4_octets(a, b, c, d);
    let octets = ip.octets_spec();
    assert(octets[0] == a && octets[1] == b && octets[2] == c && octets[3] == d);
}

/// Each address is asked for in the zone of its family, by its own number.
pub proof fn law_origin_query_names_address(ip: IpAddr, query: String)
    requires
        call_ensures(build_origin_query, (ip,), query),
    ensures
        match ip {
            IpAddr::V4(v4) => exists|a: u8, b: u8, c: u8, d: u8|
                v4.bits == a * 0x100_0000 + b * 0x1_0000 + c * 0x100 + d && query@ == (decimal(
                    d as nat,
                ) + "."@ + decimal(c as nat) + "."@ + decimal(b as nat) + "."@
                    + #[trigger] spelled_v4(a, b, c, d)),
            IpAddr::V6(v6) => query@.skip(64) == "origin6.asn.cymru.com"@ && reversed_number(
                Seq::new(32, |i: int| query@[2 * i]),
            ) == v6.bits,
        },
{
    match ip {
        IpAddr::V4(v4) => {
            let octets = v4.octets_spec();
            let (a, b, c, d) = (octets[0], octets[1], octets[2], octets[3]);
            let bits = v4.bits;
            assert(bits == (bits / 0x100_0000) * 0x100_0000 + ((bits / 0x1_0000) % 256) * 0x1_0000
                + ((bits / 0x100) % 256) * 0x100 + bits % 256) by (bit_vector);
            assert(query@ =~= decimal(d as nat) + "."@ + decimal(c as nat) + "."@ + decimal(
                b as nat,
            ) + "."@ + spelled_v4(a, b, c, d));
        },
        IpAddr::V6(v6) => {
            lemma_v6_query(v6, query@);
        },
    }
}

/// The end of the query for `a.b.c.d`.
pub open spec fn spelled_v4(a: u8, b: u8, c: u8, d: u8) -> Seq<char> {
    decimal(a as nat) + ".origin.asn.cymru.com"@
}

/// An origin record that starts with the number of an AS and names its prefix
/// in the third field is read as that number and that prefix, whatever else
/// it says.
pub proof fn law_origin_record_read(
    chunks: &Vec<String>,
    number: u32,
    second: Seq<char>,
    prefix: Seq<char>,
    more: Seq<char>,
    r: Option<(u32, Option<String>)>,
)
    requires
        call_ensures(parse_origin, (chunks,), r),
        unquoted(joined(chunks@)) == decimal(number as nat) + seq!['|'] + (second + seq!['|'] + (
        prefix + seq!['|'] + more)),
        crate::fields::free_of(second, '|'),
        crate::fields::free_of(prefix, '|'),
    ensures
        r matches Some(answer) && answer.0 == number && (answer.1 matches Some(text) && text@
            == trimmed(prefix)),
{
    let d = decimal(number as nat);
    crate::fields::lemma_digits_of_decimal(number as nat);
    let text = unquoted(joined(chunks@));
    let rest = prefix + seq!['|'] + more;
    assert forall|i: int| 0 <= i < d.len() implies #[trigger] d[i] != '|' by {
        assert(crate::fields::is_digit_char(d[i]));
    }
    crate::fields::law_fields_taken_apart(d, '|', second + seq!['|'] + rest, 1);
    crate::fields::law_fields_taken_apart(second, '|', rest, 0);
    crate::fields::law_fields_taken_apart(prefix, '|', more, 0);
    assert(crate::fields::is_digit_char(d[0]) && crate::fields::is_digit_char(d.last()));
    assert(trimmed(d) == d);
    assert(stripped_word(d, 'A', 'S') == d);
}

/// A name record names the AS in its fifth field.
pub proof fn law_name_record_read(
    chunks: &Vec<String>,
    a: Seq<char>,
    b: Seq<char>,
    c: Seq<char>,
    d: Seq<char>,
    name: Seq<char>,
    r: Option<String>,
)
    requires
        call_ensures(parse_as_name, (chunks,), r),
        unquoted(joined(chunks@)) == a + seq!['|'] + (b + seq!['|'] + (c + seq!['|'] + (d + seq![
            '|',
        ] + name))),
        crate::fields::free_of(a, '|'),
        crate::fields::free_of(b, '|'),
        crate::fields::free_of(c, '|'),
        crate::fields::free_of(d, '|'),
        crate::fields::free_of(name, '|'),
    ensures
        r matches Some(text) && text@ == sanitized(trimmed(name)),
{
    crate::fields::law_fields_taken_apart(
        a,
        '|',
        b + seq!['|'] + (c + seq!['|'] + (d + seq!['|'] + name)),
        3,
    );
    crate::fields::law_fields_taken_apart(b, '|', c + seq!['|'] + (d + seq!['|'] + name), 2);
    crate::fields::law_fields_taken_apart(c, '|', d + seq!['|'] + name, 1);
    crate::fields::law_fields_taken_apart(d, '|', name, 0);
    crate::fields::law_fields_taken_apart(name, '|', name, 0);
}

/// Quotes around a record do not count, and a record in pieces is the record.
pub proof fn law_record_in_pieces(a: Seq<String>, b: Seq<String>)
    ensures
        joined(a + b) == joined(a) + joined(b),
    decreases b.len(),
{
    if b.len() == 0 {
        assert(a + b =~= a);
        assert(joined(a) + joined(b) =~= joined(a));
    } else {
        assert((a + b).drop_last() =~= a + b.drop_last());
        law_record_in_pieces(a, b.drop_last());
        assert(joined(a) + (joined(b.drop_last()) + b.last()@) =~= joined(a) + joined(
            b.drop_last(),
        ) + b.last()@);
    }
}

/// The name of an AS is asked for by its number, and an AS whose name is not
/// known goes by it.
pub proof fn law_as_goes_by_number(
    asn: u32,
    prefix: Option<String>,
    name: Option<String>,
    query: String,
    info: AsnInfo,
)
    requires
        call_ensures(build_name_query, (asn,), query),
        call_ensures(asn_info, (asn, prefix, name), info),
    ensures
        query@ == "AS"@ + decimal(asn as nat) + ".asn.cymru.com"@,
        info.number == asn && info.prefix == prefix,
        name matches Some(given) ==> info.name@ == given@,
        name is None ==> info.name@ == "AS"@ + decimal(asn as nat),
{
}

} // verus!
