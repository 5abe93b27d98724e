//! Checking of command-line arguments, and the configuration made of them.

use std::time::Duration;
use ttl::addr::{IpAddr, Ipv4Addr};
use ttl::cli::{Args, SecondsCheck, WrapText};
use ttl::config::{default_flows, default_src_port, Config, ProbeProtocol};
use ttl::modes::{mode_of, Mode};

/// A number of seconds as nanoseconds, and whether it is a duration.
fn seconds(value: f64) -> (u64, SecondsCheck) {
    if !value.is_finite() || value <= 0.0 {
        (0, SecondsCheck::NotPositive)
    } else {
        match Duration::try_from_secs_f64(value) {
            Ok(d) => (d.as_nanos() as u64, SecondsCheck::Fine),
            Err(_) => (0, SecondsCheck::TooLarge),
        }
    }
}

fn set_timing(args: &mut Args, interval: f64, timeout: f64) {
    let (nanos, check) = seconds(interval);
    args.interval = nanos;
    args.interval_check = check;
    let (nanos, check) = seconds(timeout);
    args.timeout = nanos;
    args.timeout_check = check;
    let limit = interval * 256.0;
    args.timeout_wraps = if timeout >= limit {
        Some(WrapText {
            timeout: format!("{:.1}", timeout),
            interval: format!("{:.1}", interval),
            limit: format!("{:.1}", limit),
        })
    } else {
        None
    };
}

fn make_args(overrides: impl FnOnce(&mut Args)) -> Args {
    let mut args = Args {
        targets: vec!["8.8.8.8".to_string()],
        count: 0,
        interval: 1_000_000_000,
        interval_check: SecondsCheck::Fine,
        max_ttl: 30,
        protocol: "auto".to_string(),
        port: None,
        port_fixed: false,
        flows: 1,
        src_port: 50000,
        timeout: 3_000_000_000,
        timeout_check: SecondsCheck::Fine,
        timeout_wraps: None,
        ipv4: false,
        ipv6: false,
        resolve_all: false,
        no_dns: false,
        no_asn: false,
        no_geo: false,
        no_ix: false,
        geoip_db: None,
        no_tui: false,
        json: false,
        csv: false,
        report: false,
        replay: None,
        animate: false,
        speed_in_range: true,
        diff: None,
        stream_json: false,
        daemon: false,
        prometheus: None,
        prometheus_valid: false,
        theme: "default".to_string(),
        wide: false,
        interface: None,
        interface_supported: true,
        recv_any: false,
        dscp: None,
        size: None,
        pmtud: false,
        jumbo: false,
        rate: None,
        source_ip: None,
    };
    overrides(&mut args);
    args
}

#[test]
fn test_src_port_flows_valid_at_max() {
    // src_port=65520, flows=16 uses ports 65520..65535 (valid)
    let args = make_args(|a| {
        a.src_port = 65520;
        a.flows = 16;
    });
    assert!(args.validate().is_ok());
}

#[test]
fn test_src_port_flows_overflow() {
    // src_port=65521, flows=16 would use port 65536 (invalid)
    let args = make_args(|a| {
        a.src_port = 65521;
        a.flows = 16;
    });
    let err = args.validate().unwrap_err();
    assert!(err.contains("65536"));
}

#[test]
fn test_nan_interval_rejected() {
    let args = make_args(|a| {
        set_timing(a, f64::NAN, 3.0);
    });
    assert!(args.validate().unwrap_err().contains("positive, finite"));
}

#[test]
fn test_inf_timeout_rejected() {
    let args = make_args(|a| {
        set_timing(a, 1.0, f64::INFINITY);
    });
    assert!(args.validate().unwrap_err().contains("positive, finite"));
}

#[test]
fn test_huge_interval_rejected() {
    let args = make_args(|a| {
        set_timing(a, 1e300, 3.0);
    });
    assert!(args.validate().unwrap_err().contains("too large"));
}

#[test]
fn test_huge_timeout_rejected() {
    let args = make_args(|a| {
        set_timing(a, 1.0, 1e300);
    });
    assert!(args.validate().unwrap_err().contains("too large"));
}

#[test]
fn test_port_max_ttl_overflow_rejected() {
    // port=65530, max_ttl=30 → max port 65560 (overflows u16) unless --fixed-port
    let args = make_args(|a| {
        a.protocol = "udp".to_string();
        a.port = Some(65530);
        a.max_ttl = 30;
    });
    assert!(args.validate().unwrap_err().contains("max 65535"));
}

#[test]
fn test_port_max_ttl_valid_at_boundary() {
    // port=65505, max_ttl=30 → max port 65535 (valid)
    let args = make_args(|a| {
        a.protocol = "udp".to_string();
        a.port = Some(65505);
        a.max_ttl = 30;
    });
    assert!(args.validate().is_ok());
}

#[test]
fn test_default_destination_port_matches_protocol_defaults() {
    assert_eq!(Args::default_destination_port("tcp"), 80);
    assert_eq!(Args::default_destination_port("udp"), 33434);
    assert_eq!(Args::default_destination_port("auto"), 33434);
}

#[test]
fn test_port_max_ttl_fixed_port_skips_check() {
    // With --fixed-port, the per-TTL port variation is disabled
    let args = make_args(|a| {
        a.protocol = "udp".to_string();
        a.port = Some(65530);
        a.max_ttl = 30;
        a.port_fixed = true;
    });
    assert!(args.validate().is_ok());
}

#[test]
fn test_timeout_interval_valid() {
    // timeout=255s with interval=1s is just under the limit (must be < 256 × interval)
    let args = make_args(|a| {
        set_timing(a, 1.0, 255.0);
    });
    assert!(args.validate().is_ok());
}

#[test]
fn test_timeout_interval_boundary_rejected() {
    // timeout=256s with interval=1s is exactly at the limit — now rejected
    let args = make_args(|a| {
        set_timing(a, 1.0, 256.0);
    });
    assert!(args.validate().unwrap_err().contains("sequence wrap"));
}

#[test]
fn test_timeout_interval_wrap_rejected() {
    // timeout=257s with interval=1s exceeds 256 × interval
    let args = make_args(|a| {
        set_timing(a, 1.0, 257.0);
    });
    let err = args.validate().unwrap_err();
    assert!(err.contains("sequence wrap"));
}

#[test]
fn test_timeout_interval_fast_probes() {
    // With 0.1s interval, timeout must be <= 25.6s
    let args = make_args(|a| {
        set_timing(a, 0.1, 30.0);
    });
    let err = args.validate().unwrap_err();
    assert!(err.contains("sequence wrap"));
}

#[test]
fn test_empty_targets_interactive_ok() {
    let args = make_args(|a| a.targets = vec![]);
    assert!(args.validate().is_ok());
}

#[test]
fn test_empty_targets_rejected_for_non_interactive_modes() {
    let no_tui = make_args(|a| {
        a.targets = vec![];
        a.no_tui = true;
    });
    assert!(no_tui.validate().unwrap_err().contains("No targets"));

    let batch = make_args(|a| {
        a.targets = vec![];
        a.json = true;
        a.count = 5;
    });
    assert!(batch.validate().is_err());

    let daemon = make_args(|a| {
        a.targets = vec![];
        a.daemon = true;
    });
    assert!(daemon.validate().is_err());

    let stream = make_args(|a| {
        a.targets = vec![];
        a.stream_json = true;
    });
    assert!(stream.validate().is_err());

    let prom = make_args(|a| {
        a.targets = vec![];
        a.prometheus = Some(":9090".to_string());
    });
    assert!(prom.validate().is_err());
}

#[test]
fn test_prometheus_addr_shorthand() {
    let args = make_args(|a| {
        a.prometheus = Some(":9090".to_string());
        a.prometheus_valid = true;
    });
    assert_eq!(
        args.prometheus_addr(),
        Some("0.0.0.0:9090".to_string())
    );
    assert!(args.validate().is_ok());
    assert!(args.is_headless());
}

#[test]
fn test_prometheus_addr_full() {
    let args = make_args(|a| {
        a.prometheus = Some("127.0.0.1:9100".to_string());
        a.prometheus_valid = true;
    });
    assert_eq!(
        args.prometheus_addr(),
        Some("127.0.0.1:9100".to_string())
    );
}

#[test]
fn test_prometheus_addr_invalid() {
    let args = make_args(|a| a.prometheus = Some("not-an-addr".to_string()));
    assert!(args.prometheus_addr().is_none());
    assert!(args.validate().unwrap_err().contains("--prometheus"));
}

#[test]
fn the_listen_address_is_written_out() {
    let args = make_args(|a| a.prometheus = Some(":9090".to_string()));
    assert_eq!(args.written_prometheus_addr(), Some("0.0.0.0:9090".to_string()));
    assert!(args.prometheus_addr().is_none());
    assert!(make_args(|_| {}).written_prometheus_addr().is_none());
}

#[test]
fn every_refusal_has_its_text() {
    let refused = |change: fn(&mut Args)| make_args(change).validate().unwrap_err();
    assert_eq!(
        refused(|a| a.json = true),
        "Batch output modes (--json, --csv, --report) require -c to be set"
    );
    assert_eq!(
        refused(|a| {
            a.ipv4 = true;
            a.ipv6 = true;
        }),
        "Cannot specify both -4 and -6"
    );
    assert_eq!(
        refused(|a| a.protocol = "SCTP".to_string()),
        "Unknown protocol: SCTP. Use auto, icmp, udp, or tcp"
    );
    assert_eq!(refused(|a| a.max_ttl = 0), "Max TTL must be at least 1");
    assert_eq!(refused(|a| a.max_ttl = 65), "Max TTL cannot exceed 64");
    assert_eq!(refused(|a| a.flows = 0), "Flows must be at least 1");
    assert_eq!(
        refused(|a| a.flows = 17),
        "Flows cannot exceed 16 (resource limit)"
    );
    assert_eq!(
        refused(|a| {
            a.src_port = 65521;
            a.flows = 16;
        }),
        "src_port (65521) + flows - 1 (15) would use port 65536 (max 65535)"
    );
    assert_eq!(
        refused(|a| {
            a.protocol = "tcp".to_string();
            a.port = Some(65530);
        }),
        "port (65530) + max-ttl (30) would use port 65560 (max 65535); use --fixed-port or lower --port"
    );
    assert_eq!(
        refused(|a| set_timing(a, 1.0, 256.0)),
        "Timeout (256.0s) must be less than 256 \u{d7} interval (1.0s = 256.0s) to prevent sequence wrap"
    );
    assert_eq!(
        refused(|a| a.speed_in_range = false),
        "Replay speed must be between 0.1 and 1000.0"
    );
    assert_eq!(
        refused(|a| a.interface = Some(String::new())),
        "Interface name cannot be empty"
    );
    assert_eq!(
        refused(|a| a.interface = Some("enp0s31f6.subnet".to_string())),
        "Interface name too long: enp0s31f6.subnet (max 15 chars)"
    );
    assert!(refused(|a| {
        a.interface = Some("eth0".to_string());
        a.interface_supported = false;
    })
    .starts_with("Interface binding (-i) is not supported"));
}

#[test]
fn protocol_names_ignore_case() {
    let args = make_args(|a| a.protocol = "UdP".to_string());
    assert!(args.validate().is_ok());
    assert_eq!(Config::from_args(&args).protocol, ProbeProtocol::Udp);
    let args = make_args(|a| {
        a.protocol = "TCP".to_string();
        a.port = Some(65530);
    });
    assert!(args.validate().is_err());
}

#[test]
fn accepted_ports_are_in_range() {
    let args = make_args(|a| {
        a.protocol = "udp".to_string();
        a.port = Some(65505);
        a.src_port = 65520;
        a.flows = 16;
    });
    assert!(args.validate().is_ok());
    assert!(args.src_port.checked_add(args.flows as u16 - 1).is_some());
    assert!(65505u16.checked_add(args.max_ttl as u16).is_some());
}

#[test]
fn configuration_follows_the_arguments() {
    let source = IpAddr::V4(Ipv4Addr::new(192, 0, 2, 1));
    let args = make_args(|a| {
        a.count = 5;
        a.no_geo = true;
        a.flows = 4;
        a.dscp = Some(46);
        a.interface = Some("eth0".to_string());
        a.source_ip = Some(source);
        set_timing(a, 0.5, 2.0);
    });
    let config = Config::from_args(&args);
    assert_eq!(config.count, Some(5));
    assert_eq!(config.interval, 500_000_000);
    assert_eq!(config.timeout, 2_000_000_000);
    assert_eq!(config.protocol, ProbeProtocol::Auto);
    assert!(config.dns_enabled && !config.geo_enabled);
    assert_eq!(config.flows, 4);
    assert_eq!(config.dscp, Some(46));
    assert_eq!(config.interface, Some("eth0".to_string()));
    assert_eq!(config.source_ip, Some(source));
    assert_eq!(Config::from_args(&make_args(|_| {})).count, None);
    assert_eq!(config.with_flows(1).flows, 1);
    assert_eq!(default_flows(), 1);
    assert_eq!(default_src_port(), 50000);
    assert_eq!(Config::default().max_ttl, 30);
}

#[test]
fn the_first_mode_that_is_asked_for() {
    assert_eq!(mode_of(&make_args(|_| {})), Mode::Interactive);
    assert_eq!(mode_of(&make_args(|a| a.no_tui = true)), Mode::Streaming);
    assert_eq!(mode_of(&make_args(|a| a.report = true)), Mode::Batch);
    let diff = make_args(|a| {
        a.json = true;
        a.diff = Some(vec!["a".to_string(), "b".to_string()]);
    });
    assert_eq!(mode_of(&diff), Mode::Diff);
    let replay = make_args(|a| {
        a.json = true;
        a.replay = Some("x".to_string());
    });
    assert_eq!(mode_of(&replay), Mode::Replay);
}
