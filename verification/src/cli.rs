//! Command-line arguments and the rules they obey.

use crate::addr::IpAddr;
use crate::config::{named_protocol, ProbeProtocol};
use crate::text::{
    char_count, chars_of, copy_of, decimal, opt_text, push_decimal, push_text, same_text,
};
use vstd::prelude::*;

verus! {

/// Upper bound of the maximum TTL.
pub const MAX_SAFE_TTL: u8 = 64;

/// Upper bound of the number of flows.
pub const MAX_FLOWS: u8 = 16;

/// Longest interface name, in bytes.
pub const MAX_INTERFACE_NAME: usize = 15;

/// What is wrong with a number of seconds, if anything.
#[derive(Debug, Clone, Copy, PartialEq, Eq, Structural)]
pub enum SecondsCheck {
    /// It is a duration.
    Fine,
    /// It is not a positive, finite number.
    NotPositive,
    /// It does not fit a duration.
    TooLarge,
}

/// The numbers of a timeout that is too long, as they are shown.
#[derive(Debug, Clone)]
pub struct WrapText {
    pub timeout: String,
    pub interval: String,
    pub limit: String,
}

/// Command-line arguments. `interval` and `timeout` are in nanoseconds; what
/// was given as a fractional number comes with what has been found of it.
#[derive(Debug, Clone)]
pub struct Args {
    pub targets: Vec<String>,
    /// Number of probe rounds (0: no limit).
    pub count: u64,
    pub interval: u64,
    pub interval_check: SecondsCheck,
    pub max_ttl: u8,
    pub protocol: String,
    pub port: Option<u16>,
    pub port_fixed: bool,
    pub flows: u8,
    pub src_port: u16,
    pub timeout: u64,
    pub timeout_check: SecondsCheck,
    /// Set if the timeout is not shorter than 256 intervals.
    pub timeout_wraps: Option<WrapText>,
    pub ipv4: bool,
    pub ipv6: bool,
    pub resolve_all: bool,
    pub no_dns: bool,
    pub no_asn: bool,
    pub no_geo: bool,
    pub no_ix: bool,
    pub geoip_db: Option<String>,
    pub no_tui: bool,
    pub json: bool,
    pub csv: bool,
    pub report: bool,
    pub replay: Option<String>,
    pub animate: bool,
    /// Whether the replay speed is from 0.1 to 1000.0.
    pub speed_in_range: bool,
    pub diff: Option<Vec<String>>,
    pub stream_json: bool,
    pub daemon: bool,
    pub prometheus: Option<String>,
    /// Whether the exporter's address, written out, can be parsed.
    pub prometheus_valid: bool,
    pub theme: String,
    pub wide: bool,
    pub interface: Option<String>,
    /// Whether the platform can bind sockets to an interface.
    pub interface_supported: bool,
    pub recv_any: bool,
    pub dscp: Option<u8>,
    pub size: Option<u16>,
    pub pmtud: bool,
    pub jumbo: bool,
    pub rate: Option<u32>,
    pub source_ip: Option<IpAddr>,
}

/// What `str::to_lowercase` makes of a text.
pub uninterp spec fn lowercase(s: Seq<char>) -> Seq<char>;

/// `str::to_lowercase`: the Unicode lower-case form of a text.
#[verifier::external_body]
pub(crate) fn to_lowercase(s: &str) -> (r: String)
    ensures
        r@ == lowercase(s@),
{
    s.to_lowercase()
}

/// The protocol that a (lower-case) name stands for.
pub fn protocol_of(name: &str) -> (r: ProbeProtocol)
    ensures
        r == named_protocol(name@),
{
    if same_text(name, "icmp") {
        ProbeProtocol::Icmp
    } else if same_text(name, "udp") {
        ProbeProtocol::Udp
    } else if same_text(name, "tcp") {
        ProbeProtocol::Tcp
    } else {
        ProbeProtocol::Auto
    }
}

/// A reason to refuse arguments.
pub open spec fn duration_error(name: Seq<char>, check: SecondsCheck) -> Option<Seq<char>> {
    match check {
        SecondsCheck::Fine => None,
        SecondsCheck::NotPositive => Some(name + " must be a positive, finite number"@),
        SecondsCheck::TooLarge => Some(name + " is too large to represent as a duration"@),
    }
}

/// Whether probes of this protocol go to a port that may grow with the TTL.
pub open spec fn uses_port(name: Seq<char>, port: Option<u16>) -> bool {
    name == "udp"@ || name == "tcp"@ || (name == "auto"@ && port is Some)
}

/// The first destination port.
pub open spec fn base_port(name: Seq<char>, port: Option<u16>) -> int {
    match port {
        Some(p) => p as int,
        None => if name == "tcp"@ {
            80
        } else {
            33434
        },
    }
}

impl Args {
    /// Whether results are printed at the end, not shown meanwhile.
    pub open spec fn batch(self) -> bool {
        self.json || self.csv || self.report
    }

    /// Whether there is no terminal interface.
    pub open spec fn headless(self) -> bool {
        self.no_tui || self.stream_json || self.daemon || self.prometheus is Some
    }

    /// Checks a duration argument.
    fn validate_duration_arg(name: &str, check: SecondsCheck) -> (r: Result<(), String>)
        ensures
            match duration_error(name@, check) {
                Some(text) => r is Err && r->Err_0@ == text,
                None => r is Ok,
            },
    {
        match check {
            SecondsCheck::Fine => Ok(()),
            SecondsCheck::NotPositive => {
                let mut out: String = copy_of(name);
                push_text(&mut out, " must be a positive, finite number");
                Err(out)
            },
            SecondsCheck::TooLarge => {
                let mut out: String = copy_of(name);
                push_text(&mut out, " is too large to represent as a duration");
                Err(out)
            },
        }
    }

    /// The destination port where none is given.
    pub fn default_destination_port(protocol: &str) -> (r: u16)
        ensures
            r == base_port(protocol@, None),
    {
        if same_text(protocol, "tcp") {
            80
        } else {
            33434
        }
    }

    /// Whether running in batch mode (non-interactive).
    pub fn is_batch_mode(&self) -> (r: bool)
        ensures
            r == self.batch(),
    {
        self.json || self.csv || self.report
    }

    /// Whether running without a terminal interface.
    pub fn is_headless(&self) -> (r: bool)
        ensures
            r == self.headless(),
    {
        self.no_tui || self.stream_json || self.daemon || self.prometheus.is_some()
    }

    /// The exporter's listen address: `:9090` stands for all interfaces.
    pub open spec fn listen_text(self) -> Option<Seq<char>> {
        match self.prometheus {
            Some(addr) => Some(
                if addr@.len() > 0 && addr@[0] == ':' {
                    "0.0.0.0"@ + addr@
                } else {
                    addr@
                },
            ),
            None => None,
        }
    }

    /// The exporter's listen address, if one is given that can be parsed.
    pub fn prometheus_addr(&self) -> (r: Option<String>)
        ensures
            opt_text(r) == (if self.prometheus_valid {
                self.listen_text()
            } else {
                None
            }),
    {
        if self.prometheus_valid {
            self.written_prometheus_addr()
        } else {
            None
        }
    }

    /// The exporter's listen address, written out: what is to be parsed.
    pub fn written_prometheus_addr(&self) -> (r: Option<String>)
        ensures
            opt_text(r) == self.listen_text(),
    {
        match &self.prometheus {
            Some(addr) => {
                let chars: Vec<char> = chars_of(addr.as_str());
                if chars.len() > 0 && chars[0] == ':' {
                    let mut out: String = copy_of("0.0.0.0");
                    push_text(&mut out, addr.as_str());
                    Some(out)
                } else {
                    Some(copy_of(addr.as_str()))
                }
            },
            None => None,
        }
    }

    /// Why the combination of modes is refused.
    pub open spec fn mode_error(self) -> Option<Seq<char>> {
        if self.targets@.len() == 0 && (self.batch() || self.headless()) {
            Some("No targets specified (required for non-interactive modes)"@)
        } else if self.batch() && self.count == 0 {
            Some("Batch output modes (--json, --csv, --report) require -c to be set"@)
        } else if self.ipv4 && self.ipv6 {
            Some("Cannot specify both -4 and -6"@)
        } else {
            None
        }
    }

    /// Why the protocol, of this lower-case name, is refused.
    pub open spec fn protocol_error(self, name: Seq<char>) -> Option<Seq<char>> {
        if name != "auto"@ && name != "icmp"@ && name != "udp"@ && name != "tcp"@ {
            Some("Unknown protocol: "@ + self.protocol@ + ". Use auto, icmp, udp, or tcp"@)
        } else {
            None
        }
    }

    /// Why the TTL or the flows are refused.
    pub open spec fn limit_error(self) -> Option<Seq<char>> {
        if self.max_ttl == 0 {
            Some("Max TTL must be at least 1"@)
        } else if self.max_ttl > MAX_SAFE_TTL {
            Some("Max TTL cannot exceed "@ + decimal(MAX_SAFE_TTL as nat))
        } else if self.flows == 0 {
            Some("Flows must be at least 1"@)
        } else if self.flows > MAX_FLOWS {
            Some("Flows cannot exceed "@ + decimal(MAX_FLOWS as nat) + " (resource limit)"@)
        } else {
            None
        }
    }

    /// Why the source ports are refused.
    pub open spec fn src_port_error(self) -> Option<Seq<char>> {
        let last = self.src_port + self.flows - 1;
        if last > 65535 {
            Some(
                "src_port ("@ + decimal(self.src_port as nat) + ") + flows - 1 ("@ + decimal(
                    (self.flows - 1) as nat,
                ) + ") would use port "@ + decimal(last as nat) + " (max 65535)"@,
            )
        } else {
            None
        }
    }

    /// Why the destination ports are refused.
    pub open spec fn dst_port_error(self, name: Seq<char>) -> Option<Seq<char>> {
        let base = base_port(name, self.port);
        let last = base + self.max_ttl;
        if uses_port(name, self.port) && !self.port_fixed && last > 65535 {
            Some(
                "port ("@ + decimal(base as nat) + ") + max-ttl ("@ + decimal(self.max_ttl as nat)
                    + ") would use port "@ + decimal(last as nat)
                    + " (max 65535); use --fixed-port or lower --port"@,
            )
        } else {
            None
        }
    }

    /// Why the timeout, the speed or the exporter's address is refused.
    pub open spec fn timing_error(self) -> Option<Seq<char>> {
        if self.timeout_wraps is Some {
            let text = self.timeout_wraps->0;
            Some(
                "Timeout ("@ + text.timeout@ + "s) must be less than 256 \u{d7} interval ("@
                    + text.interval@ + "s = "@ + text.limit@ + "s) to prevent sequence wrap"@,
            )
        } else if !self.speed_in_range {
            Some("Replay speed must be between 0.1 and 1000.0"@)
        } else if self.prometheus is Some && !self.prometheus_valid {
            Some(
                "Invalid --prometheus address: "@ + self.prometheus->0@
                    + " (use :9090 or 127.0.0.1:9090)"@,
            )
        } else {
            None
        }
    }

    /// Why the interface is refused.
    pub open spec fn interface_error(self) -> Option<Seq<char>> {
        match self.interface {
            Some(name) => if name@.len() == 0 {
                Some("Interface name cannot be empty"@)
            } else if vstd::utf8::encode_utf8(name@).len() > MAX_INTERFACE_NAME {
                Some("Interface name too long: "@ + name@ + " (max 15 chars)"@)
            } else if !self.interface_supported {
                Some(
                    "Interface binding (-i) is not supported on this platform. Use --source-ip or run on Linux/macOS for interface binding."@,
                )
            } else {
                None
            },
            None => None,
        }
    }

    /// Why the arguments, with this lower-case protocol name, are refused:
    /// the first reason that holds.
    pub open spec fn refusal(self, name: Seq<char>) -> Option<Seq<char>> {
        if self.mode_error() is Some {
            self.mode_error()
        } else if self.protocol_error(name) is Some {
            self.protocol_error(name)
        } else if duration_error("Interval"@, self.interval_check) is Some {
            duration_error("Interval"@, self.interval_check)
        } else if duration_error("Timeout"@, self.timeout_check) is Some {
            duration_error("Timeout"@, self.timeout_check)
        } else if self.limit_error() is Some {
            self.limit_error()
        } else if self.src_port_error() is Some {
            self.src_port_error()
        } else if self.dst_port_error(name) is Some {
            self.dst_port_error(name)
        } else if self.timing_error() is Some {
            self.timing_error()
        } else {
            self.interface_error()
        }
    }

    fn check_modes(&self) -> (r: Result<(), String>)
        ensures
            match self.mode_error() {
                Some(text) => r is Err && r->Err_0@ == text,
                None => r is Ok,
            },
    {
        if self.targets.len() == 0 && (self.is_batch_mode() || self.is_headless()) {
            return Err(copy_of("No targets specified (required for non-interactive modes)"));
        }
        if self.is_batch_mode() && self.count == 0 {
            return Err(
                copy_of("Batch output modes (--json, --csv, --report) require -c to be set"),
            );
        }
        if self.ipv4 && self.ipv6 {
            return Err(copy_of("Cannot specify both -4 and -6"));
        }
        Ok(())
    }

    fn check_protocol(&self, name: &str) -> (r: Result<(), String>)
        ensures
            match self.protocol_error(name@) {
                Some(text) => r is Err && r->Err_0@ == text,
                None => r is Ok,
            },
    {
        if !same_text(name, "auto") && !same_text(name, "icmp") && !same_text(name, "udp")
            && !same_text(name, "tcp") {
            let mut out: String = copy_of("Unknown protocol: ");
            push_text(&mut out, self.protocol.as_str());
            push_text(&mut out, ". Use auto, icmp, udp, or tcp");
            return Err(out);
        }
        Ok(())
    }

    fn check_limits(&self) -> (r: Result<(), String>)
        ensures
            match self.limit_error() {
                Some(text) => r is Err && r->Err_0@ == text,
                None => r is Ok,
            },
    {
        if self.max_ttl == 0 {
            return Err(copy_of("Max TTL must be at least 1"));
        }
        if self.max_ttl > MAX_SAFE_TTL {
            let mut out: String = copy_of("Max TTL cannot exceed ");
            push_decimal(&mut out, MAX_SAFE_TTL as u64);
            return Err(out);
        }
        if self.flows == 0 {
            return Err(copy_of("Flows must be at least 1"));
        }
        if self.flows > MAX_FLOWS {
            let mut out: String = copy_of("Flows cannot exceed ");
            push_decimal(&mut out, MAX_FLOWS as u64);
            push_text(&mut out, " (resource limit)");
            return Err(out);
        }
        Ok(())
    }

    fn check_src_ports(&self) -> (r: Result<(), String>)
        requires
            self.flows > 0,
        ensures
            match self.src_port_error() {
                Some(text) => r is Err && r->Err_0@ == text,
                None => r is Ok,
            },
    {
        let last: u32 = self.src_port as u32 + (self.flows as u32 - 1);
        if last > 65535 {
            let mut out: String = copy_of("src_port (");
            push_decimal(&mut out, self.src_port as u64);
            push_text(&mut out, ") + flows - 1 (");
            push_decimal(&mut out, (self.flows - 1) as u64);
            push_text(&mut out, ") would use port ");
            push_decimal(&mut out, last as u64);
            push_text(&mut out, " (max 65535)");
            return Err(out);
        }
        Ok(())
    }

    fn check_dst_ports(&self, name: &str) -> (r: Result<(), String>)
        ensures
            match self.dst_port_error(name@) {
                Some(text) => r is Err && r->Err_0@ == text,
                None => r is Ok,
            },
    {
        let grows: bool = same_text(name, "udp") || same_text(name, "tcp") || (same_text(
            name,
            "auto",
        ) && self.port.is_some());
        if grows && !self.port_fixed {
            let base: u32 = match self.port {
                Some(p) => p as u32,
                None => Args::default_destination_port(name) as u32,
            };
            let last: u32 = base + self.max_ttl as u32;
            if last > 65535 {
                let mut out: String = copy_of("port (");
                push_decimal(&mut out, base as u64);
                push_text(&mut out, ") + max-ttl (");
                push_decimal(&mut out, self.max_ttl as u64);
                push_text(&mut out, ") would use port ");
                push_decimal(&mut out, last as u64);
                push_text(&mut out, " (max 65535); use --fixed-port or lower --port");
                return Err(out);
            }
        }
        Ok(())
    }

    fn check_timing(&self) -> (r: Result<(), String>)
        ensures
            match self.timing_error() {
                Some(text) => r is Err && r->Err_0@ == text,
                None => r is Ok,
            },
    {
        if let Some(text) = &self.timeout_wraps {
            let mut out: String = copy_of("Timeout (");
            push_text(&mut out, text.timeout.as_str());
            push_text(&mut out, "s) must be less than 256 \u{d7} interval (");
            push_text(&mut out, text.interval.as_str());
            push_text(&mut out, "s = ");
            push_text(&mut out, text.limit.as_str());
            push_text(&mut out, "s) to prevent sequence wrap");
            return Err(out);
        }
        if !self.speed_in_range {
            return Err(copy_of("Replay speed must be between 0.1 and 1000.0"));
        }
        if let Some(addr) = &self.prometheus {
            if !self.prometheus_valid {
                let mut out: String = copy_of("Invalid --prometheus address: ");
                push_text(&mut out, addr.as_str());
                push_text(&mut out, " (use :9090 or 127.0.0.1:9090)");
                return Err(out);
            }
        }
        Ok(())
    }

    fn check_interface(&self) -> (r: Result<(), String>)
        ensures
            match self.interface_error() {
                Some(text) => r is Err && r->Err_0@ == text,
                None => r is Ok,
            },
    {
        if let Some(name) = &self.interface {
            if char_count(name.as_str()) == 0 {
                return Err(copy_of("Interface name cannot be empty"));
            }
            if name.as_str().as_bytes().len() > MAX_INTERFACE_NAME {
                let mut out: String = copy_of("Interface name too long: ");
                push_text(&mut out, name.as_str());
                push_text(&mut out, " (max 15 chars)");
                return Err(out);
            }
            if !self.interface_supported {
                return Err(
                    copy_of(
                        "Interface binding (-i) is not supported on this platform. Use --source-ip or run on Linux/macOS for interface binding.",
                    ),
                );
            }
        }
        Ok(())
    }

    /// Checks the arguments, whose protocol has this lower-case name.
    pub fn validate_as(&self, protocol_name: &str) -> (r: Result<(), String>)
        ensures
            match self.refusal(protocol_name@) {
                Some(text) => r is Err && r->Err_0@ == text,
                None => r is Ok,
            },
    {
        match self.check_modes() {
            Ok(_) => {},
            Err(e) => return Err(e),
        }
        match self.check_protocol(protocol_name) {
            Ok(_) => {},
            Err(e) => return Err(e),
        }
        match Args::validate_duration_arg("Interval", self.interval_check) {
            Ok(_) => {},
            Err(e) => return Err(e),
        }
        match Args::validate_duration_arg("Timeout", self.timeout_check) {
            Ok(_) => {},
            Err(e) => return Err(e),
        }
        match self.check_limits() {
            Ok(_) => {},
            Err(e) => return Err(e),
        }
        match self.check_src_ports() {
            Ok(_) => {},
            Err(e) => return Err(e),
        }
        match self.check_dst_ports(protocol_name) {
            Ok(_) => {},
            Err(e) => return Err(e),
        }
        match self.check_timing() {
            Ok(_) => {},
            Err(e) => return Err(e),
        }
        self.check_interface()
    }

    /// Checks the arguments; the error says what is wrong with them.
    pub fn validate(&self) -> (r: Result<(), String>)
        ensures
            match self.refusal(lowercase(self.protocol@)) {
                Some(text) => r is Err && r->Err_0@ == text,
                None => r is Ok,
            },
    {
        let name: String = to_lowercase(self.protocol.as_str());
        self.validate_as(name.as_str())
    }
}

/// Accepted arguments keep every port that probing uses in range: the source
/// ports of all flows, and the destination ports of all TTLs unless the port
/// is fixed.
pub proof fn law_accepted_ports_in_range(args: Args, name: Seq<char>, flow: u8, ttl: u8)
    requires
        args.refusal(name) is None,
        flow < args.flows,
        ttl <= args.max_ttl,
    ensures
        args.src_port + flow <= 65535,
        1 <= args.max_ttl <= MAX_SAFE_TTL,
        1 <= args.flows <= MAX_FLOWS,
        uses_port(name, args.port) && !args.port_fixed ==> base_port(name, args.port) + ttl
            <= 65535,
{
}

/// What was asked for is carried out only if it can be: somewhere to trace to
/// where nobody can be asked, an end where something is written at the end,
/// one family at most, a TTL from 1 to 64, 1 to 16 flows, and times and an
/// address to listen on that make sense.
pub proof fn law_accepted_arguments(args: &Args, name: &str, r: Result<(), String>)
    requires
        call_ensures(Args::validate_as, (args, name), r),
    ensures
        r is Ok ==> {
            &&& args.json || args.csv || args.report || args.no_tui || args.stream_json
                || args.daemon || args.prometheus is Some ==> args.targets@.len() > 0
            &&& args.json || args.csv || args.report ==> args.count > 0
            &&& !(args.ipv4 && args.ipv6)
            &&& name@ == "auto"@ || name@ == "icmp"@ || name@ == "udp"@ || name@ == "tcp"@
            &&& 1 <= args.max_ttl <= 64
            &&& 1 <= args.flows <= 16
            &&& args.src_port + args.flows <= 65536
            &&& args.interval_check is Fine
            &&& args.timeout_check is Fine
            &&& args.timeout_wraps is None
            &&& args.speed_in_range
            &&& args.prometheus is Some ==> args.prometheus_valid
            &&& args.interface matches Some(i) ==> i@.len() > 0 && args.interface_supported
            &&& (name@ == "udp"@ || name@ == "tcp"@ || name@ == "auto"@) && !args.port_fixed ==> (
            match args.port {
                Some(port) => port + args.max_ttl <= 65535,
                None => true,
            })
            &&& args.interface matches Some(i) ==> vstd::utf8::encode_utf8(i@).len() <= 15
        },
{
    lemma_protocol_names();
}

/// The names of the protocols differ.
proof fn lemma_protocol_names()
    ensures
        "udp"@ != "tcp"@,
        "auto"@ != "udp"@,
        "auto"@ != "tcp"@,
        "icmp"@ != "udp"@,
        "icmp"@ != "tcp"@,
{
    reveal_strlit("udp");
    reveal_strlit("tcp");
    reveal_strlit("auto");
    reveal_strlit("icmp");
    assert("udp"@[0] != "tcp"@[0]);
}

/// Arguments with nothing wrong are accepted.
pub proof fn law_fine_arguments_accepted(args: &Args, name: &str, r: Result<(), String>)
    requires
        call_ensures(Args::validate_as, (args, name), r),
        args.targets@.len() > 0,
        args.count > 0,
        !args.ipv4 || !args.ipv6,
        name@ == "auto"@ || name@ == "icmp"@ || name@ == "udp"@ || name@ == "tcp"@,
        1 <= args.max_ttl <= 64,
        1 <= args.flows <= 16,
        args.src_port + args.flows <= 65536,
        args.interval_check is Fine,
        args.timeout_check is Fine,
        args.timeout_wraps is None,
        args.speed_in_range,
        args.prometheus is Some ==> args.prometheus_valid,
        args.interface is None,
        args.port matches Some(port) ==> args.port_fixed || port + args.max_ttl <= 65535,
    ensures
        r is Ok,
{
}

/// Which of the ways to run is meant.
pub proof fn law_modes_by_flags(args: &Args, batch: bool, headless: bool)
    requires
        call_ensures(Args::is_batch_mode, (args,), batch),
        call_ensures(Args::is_headless, (args,), headless),
    ensures
        batch <==> args.json || args.csv || args.report,
        headless <==> args.no_tui || args.stream_json || args.daemon || args.prometheus is Some,
{
}

/// A port alone to listen on is one of every address; anything else is taken
/// as written, and only if it can be read.
pub proof fn law_port_alone_listens_everywhere(
    args: &Args,
    r: Option<String>,
    written: Option<String>,
)
    requires
        call_ensures(Args::prometheus_addr, (args,), r),
        call_ensures(Args::written_prometheus_addr, (args,), written),
    ensures
        args.prometheus is None ==> r is None && written is None,
        args.prometheus matches Some(given) ==> (written matches Some(text) && text@ == (
        if given@.len() > 0 && given@[0] == ':' {
            "0.0.0.0"@ + given@
        } else {
            given@
        })),
        r is Some <==> args.prometheus is Some && args.prometheus_valid,
        r is Some ==> opt_text(r) == opt_text(written),
{
}

/// Where no port is given, TCP probes go to 80, others to 33434; the protocol
/// is the one named, and left to choose if none is.
pub proof fn law_protocols_by_name(name: &str, port: u16, protocol: ProbeProtocol)
    requires
        call_ensures(Args::default_destination_port, (name,), port),
        call_ensures(protocol_of, (name,), protocol),
    ensures
        name@ == "tcp"@ ==> port == 80 && protocol == ProbeProtocol::Tcp,
        name@ == "udp"@ ==> port == 33434 && protocol == ProbeProtocol::Udp,
        name@ == "icmp"@ ==> port == 33434 && protocol == ProbeProtocol::Icmp,
        name@ == "auto"@ ==> protocol == ProbeProtocol::Auto,
        protocol == ProbeProtocol::Tcp ==> name@ == "tcp"@,
        protocol == ProbeProtocol::Udp ==> name@ == "udp"@,
        protocol == ProbeProtocol::Icmp ==> name@ == "icmp"@,
{
    lemma_protocol_names();
    reveal_strlit("auto");
    reveal_strlit("icmp");
    assert("auto"@[0] != "icmp"@[0]);
}

/// An interface that can be bound to is no reason to refuse what is fine
/// otherwise, and one with a name that is too long is.
pub proof fn law_interface_by_name(
    args: &Args,
    without: &Args,
    name: &str,
    interface: String,
    r: Result<(), String>,
    s: Result<(), String>,
)
    requires
        call_ensures(Args::validate_as, (args, name), r),
        call_ensures(Args::validate_as, (without, name), s),
        args.interface == Some(interface),
        *without == (Args { interface: None, ..*args }),
    ensures
        s is Err ==> r is Err && r->Err_0@ == s->Err_0@,
        s is Ok ==> (r is Ok <==> interface@.len() > 0 && vstd::utf8::encode_utf8(
            interface@,
        ).len() <= 15 && args.interface_supported),
{
}

/// Of arguments with one fault the refusal names that fault.
pub proof fn law_fault_is_named(args: &Args, name: &str, r: Result<(), String>)
    requires
        call_ensures(Args::validate_as, (args, name), r),
        args.targets@.len() > 0,
        args.count > 0,
        !(args.ipv4 && args.ipv6),
        args.interval_check is Fine,
        args.timeout_check is Fine,
        name@ == "udp"@,
    ensures
        args.max_ttl == 0 ==> r is Err && r->Err_0@ == "Max TTL must be at least 1"@,
        args.max_ttl > 64 ==> r is Err && r->Err_0@ == "Max TTL cannot exceed "@ + decimal(64),
        1 <= args.max_ttl <= 64 && args.flows == 0 ==> r is Err && r->Err_0@
            == "Flows must be at least 1"@,
        1 <= args.max_ttl <= 64 && args.flows > 16 ==> r is Err && r->Err_0@
            == "Flows cannot exceed "@ + decimal(16) + " (resource limit)"@,
        1 <= args.max_ttl <= 64 && 1 <= args.flows <= 16 && args.src_port + args.flows > 65536
            ==> r is Err && r->Err_0@ == "src_port ("@ + decimal(args.src_port as nat)
            + ") + flows - 1 ("@ + decimal((args.flows - 1) as nat) + ") would use port "@
            + decimal((args.src_port + args.flows - 1) as nat) + " (max 65535)"@,
{
}

/// A protocol is named in any case.
pub proof fn law_protocol_in_any_case(
    args: &Args,
    name: &str,
    r: Result<(), String>,
    s: Result<(), String>,
)
    requires
        call_ensures(Args::validate, (args,), r),
        call_ensures(Args::validate_as, (args, name), s),
        name@ == lowercase(args.protocol@),
    ensures
        r is Ok <==> s is Ok,
        r is Err ==> r->Err_0@ == s->Err_0@,
{
}

} // verus!
