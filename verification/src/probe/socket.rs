//! What sockets are asked for, and what their answers mean.

use crate::addr::{IpAddr, Ipv4Addr, Ipv6Addr};
use crate::text::{copy_of, decimal, push_copy, push_decimal, push_text, texts};
use vstd::prelude::*;

verus! {

/// Socket capability level.
#[derive(Debug, Clone, Copy, PartialEq, Eq, Structural)]
pub enum SocketCapability {
    /// Full raw socket access.
    Raw,
    /// Unprivileged ICMP socket, which does not hear routers.
    Dgram,
}

/// Systems with sockets of their own kind.
#[derive(Debug, Clone, Copy, PartialEq, Eq, Structural)]
pub enum Platform {
    Linux,
    MacOs,
    FreeBsd,
    NetBsd,
}

/// Which sockets could be made.
#[derive(Debug, Clone, Copy, PartialEq, Eq, Structural)]
pub struct SocketTrials {
    pub raw_v4: bool,
    pub raw_v6: bool,
    pub dgram_v4: bool,
    pub dgram_v6: bool,
}

/// The sockets to try for sending, in order. (On macOS a raw socket does not
/// let the TTL be set; the other BSDs have no unprivileged sockets.)
pub fn send_order(platform: Platform) -> (r: (SocketCapability, Option<SocketCapability>))
    ensures
        r == (match platform {
            Platform::Linux => (SocketCapability::Raw, Some(SocketCapability::Dgram)),
            Platform::MacOs => (SocketCapability::Dgram, Some(SocketCapability::Raw)),
            Platform::FreeBsd | Platform::NetBsd => (SocketCapability::Raw, None),
        }),
{
    match platform {
        Platform::Linux => (SocketCapability::Raw, Some(SocketCapability::Dgram)),
        Platform::MacOs => (SocketCapability::Dgram, Some(SocketCapability::Raw)),
        Platform::FreeBsd | Platform::NetBsd => (SocketCapability::Raw, None),
    }
}

/// The sockets to try for receiving, in order.
pub fn recv_order(platform: Platform) -> (r: (SocketCapability, Option<SocketCapability>))
    ensures
        r == (match platform {
            Platform::Linux => (SocketCapability::Raw, Some(SocketCapability::Dgram)),
            _ => (SocketCapability::Raw, None),
        }),
{
    match platform {
        Platform::Linux => (SocketCapability::Raw, Some(SocketCapability::Dgram)),
        _ => (SocketCapability::Raw, None),
    }
}

/// What is missing, if tracing is not possible.
pub open spec fn permission_error(
    platform: Platform,
    trials: SocketTrials,
    binary: Seq<char>,
) -> Option<Seq<char>> {
    match platform {
        Platform::Linux => if trials.raw_v4 {
            None
        } else {
            Some(
                "Insufficient permissions for raw sockets.\n\nFix (one-time):\n\u{2022} sudo setcap cap_net_raw+ep "@
                    + binary + "\n\nOr run with sudo:\n\u{2022} sudo ttl <target>"@,
            )
        },
        Platform::MacOs => if !trials.raw_v4 {
            Some(
                "Insufficient permissions for ICMP sockets.\n\nOn macOS, raw sockets are required to receive ICMP Time Exceeded\nmessages from intermediate routers.\n\nFix: Run with sudo: sudo ttl <target>"@,
            )
        } else if !trials.dgram_v4 {
            Some(
                "Failed to create ICMP socket for sending.\n\nFix: Run with sudo: sudo ttl <target>"@,
            )
        } else {
            None
        },
        Platform::FreeBsd | Platform::NetBsd => if trials.raw_v4 {
            None
        } else {
            Some(
                "Insufficient permissions for ICMP sockets.\n\nRaw sockets are required for traceroute.\n\nFix: Run with sudo: sudo ttl <target>"@,
            )
        },
    }
}

/// What will not work, though tracing is possible.
pub open spec fn permission_notes(platform: Platform, trials: SocketTrials) -> Seq<Seq<char>> {
    if !trials.raw_v4 {
        Seq::empty()
    } else {
        let first = if !trials.raw_v6 {
            Seq::empty().push(
                "Note: IPv6 raw sockets unavailable; IPv6 traceroute will not work."@,
            )
        } else {
            Seq::empty()
        };
        if platform == Platform::MacOs && trials.dgram_v4 && !trials.dgram_v6 {
            first.push(
                "Note: IPv6 DGRAM sockets unavailable; IPv6 traceroute may not work correctly."@,
            )
        } else {
            first
        }
    }
}

/// Checks what the sockets that could be made allow. Notes are for the user
/// either way; `binary` is where the program lies.
pub fn check_permissions(platform: Platform, trials: SocketTrials, binary: &str) -> (r: (
    Result<SocketCapability, String>,
    Vec<String>,
))
    ensures
        match permission_error(platform, trials, binary@) {
            Some(text) => r.0 is Err && r.0->Err_0@ == text,
            None => r.0 == Ok::<SocketCapability, String>(SocketCapability::Raw),
        },
        texts(r.1@) == permission_notes(platform, trials),
{
    let mut notes: Vec<String> = Vec::new();
    assert(texts(notes@) =~= Seq::empty());
    let mac: bool = match platform {
        Platform::MacOs => true,
        _ => false,
    };
    if !trials.raw_v4 {
        let text: String = match platform {
            Platform::Linux => {
                let mut out: String = copy_of(
                    "Insufficient permissions for raw sockets.\n\nFix (one-time):\n\u{2022} sudo setcap cap_net_raw+ep ",
                );
                push_text(&mut out, binary);
                push_text(&mut out, "\n\nOr run with sudo:\n\u{2022} sudo ttl <target>");
                out
            },
            Platform::MacOs => copy_of(
                "Insufficient permissions for ICMP sockets.\n\nOn macOS, raw sockets are required to receive ICMP Time Exceeded\nmessages from intermediate routers.\n\nFix: Run with sudo: sudo ttl <target>",
            ),
            Platform::FreeBsd | Platform::NetBsd => copy_of(
                "Insufficient permissions for ICMP sockets.\n\nRaw sockets are required for traceroute.\n\nFix: Run with sudo: sudo ttl <target>",
            ),
        };
        return (Err(text), notes);
    }
    if !trials.raw_v6 {
        push_copy(
            &mut notes,
            "Note: IPv6 raw sockets unavailable; IPv6 traceroute will not work.",
        );
    }
    if mac && !trials.dgram_v4 {
        return (
            Err(
                copy_of(
                    "Failed to create ICMP socket for sending.\n\nFix: Run with sudo: sudo ttl <target>",
                ),
            ),
            notes,
        );
    }
    if mac && !trials.dgram_v6 {
        push_copy(
            &mut notes,
            "Note: IPv6 DGRAM sockets unavailable; IPv6 traceroute may not work correctly.",
        );
    }
    (Ok(SocketCapability::Raw), notes)
}

/// The traffic class of a DSCP value, which has the upper six bits.
pub fn traffic_class(dscp: u8) -> (r: u32)
    ensures
        r == dscp * 4,
{
    dscp as u32 * 4
}

/// How fragmentation is forbidden.
#[derive(Debug, Clone, Copy, PartialEq, Eq, Structural)]
pub enum DontFragment {
    /// By setting an option of the family's level to a value.
    ByOption { option: i32, value: i32 },
    /// Not at all.
    Unsupported,
}

/// How fragmentation is forbidden on a system.
pub fn dont_fragment(platform: Platform, ipv6: bool) -> (r: DontFragment)
    ensures
        r == (if ipv6 {
            DontFragment::ByOption { option: 62, value: 1 }
        } else {
            match platform {
                Platform::Linux => DontFragment::ByOption { option: 10, value: 2 },
                Platform::MacOs => DontFragment::ByOption { option: 28, value: 1 },
                Platform::FreeBsd => DontFragment::ByOption { option: 67, value: 1 },
                Platform::NetBsd => DontFragment::Unsupported,
            }
        }),
{
    if ipv6 {
        DontFragment::ByOption { option: 62, value: 1 }
    } else {
        match platform {
            Platform::Linux => DontFragment::ByOption { option: 10, value: 2 },
            Platform::MacOs => DontFragment::ByOption { option: 28, value: 1 },
            Platform::FreeBsd => DontFragment::ByOption { option: 67, value: 1 },
            Platform::NetBsd => DontFragment::Unsupported,
        }
    }
}

/// The option that makes the TTL of answers known.
pub fn recv_ttl_option(platform: Platform, ipv6: bool) -> (r: i32)
    ensures
        r == (match (platform, ipv6) {
            (Platform::Linux, true) => 51int,
            (_, true) => 37,
            (Platform::Linux, false) => 12,
            (Platform::MacOs, false) => 24,
            (Platform::FreeBsd, false) => 65,
            (Platform::NetBsd, false) => 23,
        }),
{
    match (platform, ipv6) {
        (Platform::Linux, true) => 51,
        (_, true) => 37,
        (Platform::Linux, false) => 12,
        (Platform::MacOs, false) => 24,
        (Platform::FreeBsd, false) => 65,
        (Platform::NetBsd, false) => 23,
    }
}

/// A message that came with a packet: its level and type, how long it says it
/// is, and the number it starts with.
#[derive(Debug, Clone, Copy, PartialEq, Eq, Structural)]
pub struct ControlMessage {
    pub level: i32,
    pub kind: i32,
    pub len: usize,
    pub value: i32,
}

/// Whether a message tells the TTL of an answer. `hop_limit` is the type of
/// such messages for IPv6.
pub open spec fn tells_ttl(
    platform: Platform,
    ipv6: bool,
    hop_limit: i32,
    least: usize,
    m: ControlMessage,
) -> bool {
    m.len >= least && if ipv6 {
        m.level == 41 && m.kind == hop_limit
    } else {
        m.level == 0 && match platform {
            Platform::Linux => m.kind == 2,
            Platform::MacOs => m.kind == 4 || m.kind == 24,
            Platform::FreeBsd => m.kind == 4 || m.kind == 65,
            Platform::NetBsd => m.kind == 4 || m.kind == 23,
        }
    }
}

/// Whether a message tells the TTL of an answer.
fn is_ttl_message(
    platform: Platform,
    ipv6: bool,
    hop_limit: i32,
    least: usize,
    m: &ControlMessage,
) -> (r: bool)
    ensures
        r == tells_ttl(platform, ipv6, hop_limit, least, *m),
{
    if m.len < least {
        return false;
    }
    if ipv6 {
        m.level == 41 && m.kind == hop_limit
    } else {
        m.level == 0 && match platform {
            Platform::Linux => m.kind == 2,
            Platform::MacOs => m.kind == 4 || m.kind == 24,
            Platform::FreeBsd => m.kind == 4 || m.kind == 65,
            Platform::NetBsd => m.kind == 4 || m.kind == 23,
        }
    }
}

/// The TTL of an answer, from the first message that tells it. Messages too
/// short to hold a number are passed over; nothing is read where messages
/// were cut off.
pub fn response_ttl(
    platform: Platform,
    ipv6: bool,
    hop_limit: i32,
    least: usize,
    truncated: bool,
    messages: &Vec<ControlMessage>,
) -> (r: Option<u8>)
    ensures
        truncated ==> r is None,
        !truncated ==> match r {
            Some(ttl) => exists|i: int|
                #![trigger messages@[i]]
                0 <= i < messages@.len() && tells_ttl(
                    platform,
                    ipv6,
                    hop_limit,
                    least,
                    messages@[i],
                ) && ttl == messages@[i].value as u8 && forall|j: int|
                    0 <= j < i ==> !tells_ttl(
                        platform,
                        ipv6,
                        hop_limit,
                        least,
                        #[trigger] messages@[j],
                    ),
            None => forall|j: int|
                0 <= j < messages@.len() ==> !tells_ttl(
                    platform,
                    ipv6,
                    hop_limit,
                    least,
                    #[trigger] messages@[j],
                ),
        },
        !truncated && messages@.len() > 0 && tells_ttl(
            platform,
            ipv6,
            hop_limit,
            least,
            messages@[0],
        ) ==> r == Some(messages@[0].value as u8),
{
    if truncated {
        return None;
    }
    let mut i: usize = 0;
    while i < messages.len()
        invariant
            i <= messages@.len(),
            !truncated,
            forall|j: int|
                0 <= j < i ==> !tells_ttl(
                    platform,
                    ipv6,
                    hop_limit,
                    least,
                    #[trigger] messages@[j],
                ),
        decreases messages@.len() - i,
    {
        if is_ttl_message(platform, ipv6, hop_limit, least, &messages[i]) {
            let ttl: u8 = messages[i].value as u8;
            assert(tells_ttl(platform, ipv6, hop_limit, least, messages@[i as int]));
            return Some(ttl);
        }
        i = i + 1;
    }
    None
}

/// An address as a socket gives it.
#[derive(Debug, Clone, Copy, PartialEq, Eq, Structural)]
pub enum SocketSource {
    /// An IPv4 address, its bits in host order.
    Inet(u32),
    /// An IPv6 address, its bits in host order.
    Inet6(u128),
    /// Another family.
    Unknown(u16),
}

/// Who sent a packet.
pub fn source_address(source: SocketSource) -> (r: Result<IpAddr, String>)
    ensures
        match source {
            SocketSource::Inet(bits) => r == Ok::<IpAddr, String>(IpAddr::V4(Ipv4Addr { bits })),
            SocketSource::Inet6(bits) => r == Ok::<IpAddr, String>(IpAddr::V6(Ipv6Addr { bits })),
            SocketSource::Unknown(family) => r is Err && r->Err_0@ == "Unknown address family: "@
                + decimal(family as nat),
        },
{
    match source {
        SocketSource::Inet(bits) => Ok(IpAddr::V4(Ipv4Addr { bits })),
        SocketSource::Inet6(bits) => Ok(IpAddr::V6(Ipv6Addr { bits })),
        SocketSource::Unknown(family) => {
            let mut out: String = copy_of("Unknown address family: ");
            push_decimal(&mut out, family as u64);
            Err(out)
        },
    }
}

/// Raw sockets can do everything and are tried first where they may be had;
/// macOS sends by datagram sockets. Answers from routers come to raw sockets
/// only, but on Linux to others too.
pub proof fn law_sockets_by_platform(
    platform: Platform,
    sending: (SocketCapability, Option<SocketCapability>),
    receiving: (SocketCapability, Option<SocketCapability>),
)
    requires
        call_ensures(send_order, (platform,), sending),
        call_ensures(recv_order, (platform,), receiving),
    ensures
        (sending.0 is Dgram) <==> (platform is MacOs),
        sending.1 is Some <==> (platform is Linux) || (platform is MacOs),
        sending.1 matches Some(other) ==> other != sending.0,
        receiving.0 is Raw,
        receiving.1 is Some <==> (platform is Linux),
{
}

/// Nothing is traced without a raw socket, nor on macOS without a datagram
/// socket to send by; whether IPv6 can be traced is only noted.
pub proof fn law_raw_sockets_are_needed(
    platform: Platform,
    trials: SocketTrials,
    binary: &str,
    r: (Result<SocketCapability, String>, Vec<String>),
)
    requires
        call_ensures(check_permissions, (platform, trials, binary), r),
    ensures
        r.0 is Ok <==> trials.raw_v4 && ((platform is MacOs) ==> trials.dgram_v4),
        r.0 is Ok && trials.raw_v6 && !(platform is MacOs) ==> r.1@.len() == 0,
        trials.raw_v4 && !trials.raw_v6 ==> r.1@.len() > 0,
{
    assert(texts(r.1@).len() == r.1@.len());
}

/// The traffic class of IPv6 has the code point in its upper six bits.
pub proof fn law_traffic_class(dscp: u8, r: u32)
    requires
        call_ensures(traffic_class, (dscp,), r),
    ensures
        r % 4 == 0,
        r / 4 == dscp,
{
}

/// The TTL of an answer is the value of the first control message that tells
/// it; a list that was cut off tells nothing.
pub proof fn law_ttl_from_first_message(
    platform: Platform,
    ipv6: bool,
    hop_limit: i32,
    least: usize,
    truncated: bool,
    messages: &Vec<ControlMessage>,
    r: Option<u8>,
)
    requires
        call_ensures(response_ttl, (platform, ipv6, hop_limit, least, truncated, messages), r),
        messages@.len() > 0,
        messages@[0].len >= least,
        ipv6 ==> messages@[0].level == 41 && messages@[0].kind == hop_limit,
        !ipv6 ==> messages@[0].level == 0 && messages@[0].kind == (if platform is Linux {
            2i32
        } else {
            4i32
        }),
        0 <= messages@[0].value <= 255,
    ensures
        truncated ==> r is None,
        !truncated ==> (r matches Some(ttl) && ttl == messages@[0].value),
{
    let first = messages@[0];
    assert(tells_ttl(platform, ipv6, hop_limit, least, first));
    assert(first.value as u8 == first.value);
}

/// An address comes from the socket as a number of its family.
pub proof fn law_source_from_socket(
    a: u32,
    b: u128,
    v4: Result<IpAddr, String>,
    v6: Result<IpAddr, String>,
)
    requires
        call_ensures(source_address, (SocketSource::Inet(a),), v4),
        call_ensures(source_address, (SocketSource::Inet6(b),), v6),
    ensures
        v4 matches Ok(IpAddr::V4(x)) && x.bits == a,
        v6 matches Ok(IpAddr::V6(y)) && y.bits == b,
{
}

/// That a packet must stay whole is asked for by the option that the platform
/// has for it; NetBSD has none for IPv4.
pub proof fn law_whole_packets_by_platform(
    platform: Platform,
    ipv6: bool,
    r: DontFragment,
)
    requires
        call_ensures(dont_fragment, (platform, ipv6), r),
    ensures
        (r is Unsupported) <==> (platform is NetBsd) && !ipv6,
        !ipv6 && (platform is Linux) ==> r == (DontFragment::ByOption { option: 10, value: 2 }),
        !ipv6 && (platform is MacOs) ==> r == (DontFragment::ByOption { option: 28, value: 1 }),
        !ipv6 && (platform is FreeBsd) ==> r == (DontFragment::ByOption { option: 67, value: 1 }),
        ipv6 ==> r == (DontFragment::ByOption { option: 62, value: 1 }),
{
}

/// A TTL is told by a message of the protocol and the kind that tell it and
/// long enough to hold it, by no other.
pub proof fn law_ttl_from_no_other_message(
    platform: Platform,
    ipv6: bool,
    hop_limit: i32,
    least: usize,
    messages: &Vec<ControlMessage>,
    r: Option<u8>,
)
    requires
        call_ensures(response_ttl, (platform, ipv6, hop_limit, least, false, messages), r),
    ensures
        r matches Some(ttl) ==> exists|i: int|
            0 <= i < messages@.len() && (#[trigger] messages@[i]).len >= least && ttl
                == messages@[i].value as u8 && (ipv6 ==> messages@[i].level == 41
                && messages@[i].kind == hop_limit) && (!ipv6 ==> messages@[i].level == 0) && (!ipv6
                && (platform is Linux) ==> messages@[i].kind == 2) && (!ipv6 && !(platform is Linux)
                ==> messages@[i].kind == 4 || messages@[i].kind == 24 || messages@[i].kind == 65
                || messages@[i].kind == 23),
{
}

/// What is asked for is what comes: off Linux the messages that tell the TTL
/// have the number of the option that was set.
pub proof fn law_option_names_its_messages(
    platform: Platform,
    option: i32,
    option_v6: i32,
    hop_limit: i32,
    m: ControlMessage,
)
    requires
        call_ensures(recv_ttl_option, (platform, false), option),
        call_ensures(recv_ttl_option, (platform, true), option_v6),
        m.level == 0,
        m.kind == option,
    ensures
        tells_ttl(platform, false, hop_limit, 0, m) <==> !(platform is Linux),
        option != option_v6,
        (platform is Linux) ==> option == 12 && option_v6 == 51,
        !(platform is Linux) ==> option_v6 == 37,
{
}

} // verus!
