//! Runtime configuration.

use crate::addr::IpAddr;
use crate::cli::{protocol_of, Args};
use crate::text::{copy_opt, opt_text};
use vstd::prelude::*;

verus! {

/// Probe protocol.
#[derive(Debug, Clone, Copy, PartialEq, Eq, Structural)]
pub enum ProbeProtocol {
    /// Try ICMP, then UDP, then TCP.
    Auto,
    Icmp,
    Udp,
    Tcp,
}

impl Default for ProbeProtocol {
    fn default() -> (r: ProbeProtocol)
        ensures
            r == ProbeProtocol::Auto,
    {
        ProbeProtocol::Auto
    }
}

/// Runtime configuration derived from the command line. Durations are in
/// nanoseconds.
#[derive(Debug, Clone)]
pub struct Config {
    /// Number of probe rounds (none: no limit).
    pub count: Option<u64>,
    /// Interval between probe rounds.
    pub interval: u64,
    /// Maximum TTL.
    pub max_ttl: u8,
    /// Probe timeout.
    pub timeout: u64,
    /// Probe protocol.
    pub protocol: ProbeProtocol,
    /// Port for UDP and TCP probes.
    pub port: Option<u16>,
    /// Whether the port is the same for every TTL.
    pub port_fixed: bool,
    /// Number of flows for multi-path detection.
    pub flows: u8,
    /// Base source port for flow identification.
    pub src_port_base: u16,
    /// Whether to look up host names.
    pub dns_enabled: bool,
    /// Whether to look up autonomous systems.
    pub asn_enabled: bool,
    /// Whether to look up places.
    pub geo_enabled: bool,
    /// Whether to look up exchanges.
    pub ix_enabled: bool,
    /// Network interface to bind sockets to.
    pub interface: Option<String>,
    /// Whether the receiver is not bound to the interface.
    pub recv_any: bool,
    /// DSCP value.
    pub dscp: Option<u8>,
    /// Probe packet size in bytes, headers included.
    pub packet_size: Option<u16>,
    /// Whether to discover the path MTU.
    pub pmtud: bool,
    /// Whether path-MTU discovery tries jumbo frames.
    pub jumbo: bool,
    /// Maximum probes per second (none: no limit).
    pub rate: Option<u32>,
    /// Source address for probes.
    pub source_ip: Option<IpAddr>,
}

/// Flows where none are given.
pub fn default_flows() -> (r: u8)
    ensures
        r == 1,
{
    1
}

/// Base source port where none is given.
pub fn default_src_port() -> (r: u16)
    ensures
        r == 50000,
{
    50000
}

impl Default for Config {
    fn default() -> (r: Config)
        ensures
            r.count is None,
            r.interval == 1_000_000_000,
            r.max_ttl == 30,
            r.timeout == 3_000_000_000,
            r.protocol == ProbeProtocol::Icmp,
            r.port is None,
            !r.port_fixed,
            r.flows == 1,
            r.src_port_base == 50000,
            r.dns_enabled && r.asn_enabled && r.geo_enabled && r.ix_enabled,
            r.interface is None,
            !r.recv_any,
            r.dscp is None,
            r.packet_size is None,
            !r.pmtud && !r.jumbo,
            r.rate is None,
            r.source_ip is None,
    {
        Config {
            count: None,
            interval: 1_000_000_000,
            max_ttl: 30,
            timeout: 3_000_000_000,
            protocol: ProbeProtocol::Icmp,
            port: None,
            port_fixed: false,
            flows: default_flows(),
            src_port_base: default_src_port(),
            dns_enabled: true,
            asn_enabled: true,
            geo_enabled: true,
            ix_enabled: true,
            interface: None,
            recv_any: false,
            dscp: None,
            packet_size: None,
            pmtud: false,
            jumbo: false,
            rate: None,
            source_ip: None,
        }
    }
}

/// The port where none is given: for an automatically chosen protocol that is
/// decided when the protocol is.
pub open spec fn default_port(protocol: ProbeProtocol) -> Option<u16> {
    match protocol {
        ProbeProtocol::Auto => None,
        ProbeProtocol::Udp => Some(33434),
        ProbeProtocol::Tcp => Some(80),
        ProbeProtocol::Icmp => None,
    }
}

/// The protocol that a (lower-case) name stands for; any other name stands
/// for automatic choice.
pub open spec fn named_protocol(name: Seq<char>) -> ProbeProtocol {
    if name == "icmp"@ {
        ProbeProtocol::Icmp
    } else if name == "udp"@ {
        ProbeProtocol::Udp
    } else if name == "tcp"@ {
        ProbeProtocol::Tcp
    } else {
        ProbeProtocol::Auto
    }
}

/// The configuration that arguments with this lower-case protocol name give.
pub fn config_of(args: &Args, protocol_name: &str) -> (r: Config)
    ensures
        r.count == (if args.count == 0 {
            None
        } else {
            Some(args.count)
        }),
        r.interval == args.interval,
        r.max_ttl == args.max_ttl,
        r.timeout == args.timeout,
        r.protocol == named_protocol(protocol_name@),
        r.port == (if args.port is Some {
            args.port
        } else {
            default_port(r.protocol)
        }),
        r.port_fixed == args.port_fixed,
        r.flows == args.flows,
        r.src_port_base == args.src_port,
        r.dns_enabled == !args.no_dns,
        r.asn_enabled == !args.no_asn,
        r.geo_enabled == !args.no_geo,
        r.ix_enabled == !args.no_ix,
        opt_text(r.interface) == opt_text(args.interface),
        r.recv_any == args.recv_any,
        r.dscp == args.dscp,
        r.packet_size == args.size,
        r.pmtud == args.pmtud,
        r.jumbo == args.jumbo,
        r.rate == args.rate,
        r.source_ip == args.source_ip,
{
    let protocol: ProbeProtocol = protocol_of(protocol_name);
    let port: Option<u16> = match args.port {
        Some(p) => Some(p),
        None => match protocol {
            ProbeProtocol::Auto => None,
            ProbeProtocol::Udp => Some(33434),
            ProbeProtocol::Tcp => Some(80),
            ProbeProtocol::Icmp => None,
        },
    };
    Config {
        count: if args.count == 0 {
            None
        } else {
            Some(args.count)
        },
        interval: args.interval,
        max_ttl: args.max_ttl,
        timeout: args.timeout,
        protocol,
        port,
        port_fixed: args.port_fixed,
        flows: args.flows,
        src_port_base: args.src_port,
        dns_enabled: !args.no_dns,
        asn_enabled: !args.no_asn,
        geo_enabled: !args.no_geo,
        ix_enabled: !args.no_ix,
        interface: copy_opt(&args.interface),
        recv_any: args.recv_any,
        dscp: args.dscp,
        packet_size: args.size,
        pmtud: args.pmtud,
        jumbo: args.jumbo,
        rate: args.rate,
        source_ip: args.source_ip,
    }
}

impl Config {
    /// The configuration that arguments give. The protocol's name is taken
    /// without regard to case.
    pub fn from_args(args: &Args) -> (r: Config)
        ensures
            r.protocol == named_protocol(crate::cli::lowercase(args.protocol@)),
            r.port == (if args.port is Some {
                args.port
            } else {
                default_port(r.protocol)
            }),
            r.count == (if args.count == 0 {
                None
            } else {
                Some(args.count)
            }),
            r.interval == args.interval,
            r.timeout == args.timeout,
            r.max_ttl == args.max_ttl,
            r.port_fixed == args.port_fixed,
            r.flows == args.flows,
            r.src_port_base == args.src_port,
            r.dns_enabled == !args.no_dns,
            r.asn_enabled == !args.no_asn,
            r.geo_enabled == !args.no_geo,
            r.ix_enabled == !args.no_ix,
            opt_text(r.interface) == opt_text(args.interface),
            r.recv_any == args.recv_any,
            r.dscp == args.dscp,
            r.packet_size == args.size,
            r.pmtud == args.pmtud,
            r.jumbo == args.jumbo,
            r.rate == args.rate,
            r.source_ip == args.source_ip,
    {
        let name: String = crate::cli::to_lowercase(args.protocol.as_str());
        config_of(args, name.as_str())
    }

    /// A copy with another number of flows.
    pub fn with_flows(&self, flows: u8) -> (r: Config)
        ensures
            r.flows == flows,
            opt_text(r.interface) == opt_text(self.interface),
            r == (Config { flows, interface: r.interface, ..*self }),
    {
        Config {
            count: self.count,
            interval: self.interval,
            max_ttl: self.max_ttl,
            timeout: self.timeout,
            protocol: self.protocol,
            port: self.port,
            port_fixed: self.port_fixed,
            flows,
            src_port_base: self.src_port_base,
            dns_enabled: self.dns_enabled,
            asn_enabled: self.asn_enabled,
            geo_enabled: self.geo_enabled,
            ix_enabled: self.ix_enabled,
            interface: copy_opt(&self.interface),
            recv_any: self.recv_any,
            dscp: self.dscp,
            packet_size: self.packet_size,
            pmtud: self.pmtud,
            jumbo: self.jumbo,
            rate: self.rate,
            source_ip: self.source_ip,
        }
    }
}

/// The configuration says what the arguments say: no number of rounds means
/// no end, what is switched off is off, and where no port is given UDP uses
/// 33434, TCP 80, and echo requests none.
pub proof fn law_config_follows_arguments(args: &Args, name: &str, r: Config)
    requires
        call_ensures(config_of, (args, name), r),
    ensures
        r.count is None <==> args.count == 0,
        r.count matches Some(n) ==> n == args.count,
        r.interval == args.interval && r.timeout == args.timeout && r.max_ttl == args.max_ttl,
        r.flows == args.flows && r.src_port_base == args.src_port && r.port_fixed
            == args.port_fixed,
        r.dns_enabled != args.no_dns && r.asn_enabled != args.no_asn && r.geo_enabled
            != args.no_geo && r.ix_enabled != args.no_ix,
        r.recv_any == args.recv_any && r.dscp == args.dscp && r.packet_size == args.size,
        r.pmtud == args.pmtud && r.jumbo == args.jumbo && r.rate == args.rate && r.source_ip
            == args.source_ip,
        args.port is Some ==> r.port == args.port,
        args.port is None && name@ == "udp"@ ==> r.port == Some(33434u16) && (r.protocol is Udp),
        args.port is None && name@ == "tcp"@ ==> r.port == Some(80u16) && (r.protocol is Tcp),
        args.port is None && (name@ == "icmp"@ || name@ == "auto"@) ==> r.port is None,
        opt_text(r.interface) == opt_text(args.interface),
{
    reveal_strlit("udp");
    reveal_strlit("tcp");
    reveal_strlit("auto");
    reveal_strlit("icmp");
    assert("udp"@[0] != "tcp"@[0]);
}

/// Made from the arguments alone, the configuration differs from that for a
/// name in nothing but the protocol and what follows from it.
pub proof fn law_config_from_arguments(args: &Args, r: Config)
    requires
        call_ensures(Config::from_args, (args,), r),
    ensures
        r.count is None <==> args.count == 0,
        r.count matches Some(n) ==> n == args.count,
        r.interval == args.interval && r.timeout == args.timeout && r.max_ttl == args.max_ttl,
        r.flows == args.flows && r.src_port_base == args.src_port && r.port_fixed
            == args.port_fixed,
        r.dns_enabled != args.no_dns && r.asn_enabled != args.no_asn && r.geo_enabled
            != args.no_geo && r.ix_enabled != args.no_ix,
        r.recv_any == args.recv_any && r.dscp == args.dscp && r.packet_size == args.size,
        r.pmtud == args.pmtud && r.jumbo == args.jumbo && r.rate == args.rate && r.source_ip
            == args.source_ip,
        args.port is Some ==> r.port == args.port,
        args.port is None ==> r.port == (match r.protocol {
            ProbeProtocol::Udp => Some(33434u16),
            ProbeProtocol::Tcp => Some(80u16),
            _ => None,
        }),
{
}

/// Another number of flows changes nothing else.
pub proof fn law_only_flows_change(config: &Config, flows: u8, r: Config)
    requires
        call_ensures(Config::with_flows, (config, flows), r),
    ensures
        r.flows == flows,
        r.max_ttl == config.max_ttl && r.timeout == config.timeout && r.port == config.port
            && r.src_port_base == config.src_port_base && r.protocol == config.protocol && r.count
            == config.count,
        r.interval == config.interval && r.port_fixed == config.port_fixed && r.packet_size
            == config.packet_size && r.dscp == config.dscp && r.rate == config.rate && r.source_ip
            == config.source_ip,
        r.pmtud == config.pmtud && r.jumbo == config.jumbo && r.recv_any == config.recv_any,
        r.dns_enabled == config.dns_enabled && r.asn_enabled == config.asn_enabled && r.geo_enabled
            == config.geo_enabled && r.ix_enabled == config.ix_enabled,
        opt_text(r.interface) == opt_text(config.interface),
{
}

/// What is used where nothing is asked for is what could be asked for: a TTL
/// and flows in their range, ports that exist, an answer that is waited for
/// while its sequence number is its own, and nothing looked up left out.
pub proof fn law_defaults_are_fine(config: Config, flows: u8, port: u16)
    requires
        call_ensures(Config::default, (), config),
        call_ensures(default_flows, (), flows),
        call_ensures(default_src_port, (), port),
    ensures
        config.flows == flows && config.src_port_base == port,
        1 <= config.max_ttl <= 64,
        1 <= flows <= 16 && port + flows <= 65536,
        port > 33434 + 64,
        config.timeout < 256 * config.interval,
        config.interval <= config.timeout,
        config.count is None,
        config.dns_enabled && config.asn_enabled && config.geo_enabled && config.ix_enabled,
        config.interface is None && config.source_ip is None,
{
}

} // verus!
