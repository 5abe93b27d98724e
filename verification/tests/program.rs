//! What the program decides around tracing: flows, targets, sockets, modes,
//! preferences and updates.

use ttl::addr::{IpAddr, Ipv4Addr, Ipv6Addr};
use ttl::config::{Config, ProbeProtocol};
use ttl::flows::{
    config_for_target_effective_flows, effective_flow_count_for_family, needs_socket_check,
    plan_receivers, session_effective_flows_for_family, warn_flows_limited,
};
use ttl::manager::{AddPlan, TargetManager};
use ttl::modes::{
    batch_text, check_session_size, daemon_warning, different_targets_warning, duplicate_warning,
    json_array, on_signal, override_prefs, replay_view, shutdown_trace_enabled, skip_notes,
    stream_round, stream_tick, stream_update, ReplayView, StreamTick, MAX_SESSION_BYTES,
};
use ttl::prefs::{typed_key, DisplayMode, Prefs};
use ttl::probe::interface::InterfaceInfo;
use ttl::probe::socket::{
    check_permissions, dont_fragment, recv_order, recv_ttl_option, response_ttl, send_order,
    source_address, traffic_class, ControlMessage, DontFragment, Platform, SocketCapability,
    SocketSource, SocketTrials,
};
use ttl::resolve::{
    check_interface, check_source, decide_add, families, resolve_target, resolve_targets,
    shown_source, take_up, AddDecision, Families, InterfaceCheck, Resolved,
};
use ttl::session::{Address, Hop, Session, Target};
use ttl::tui::screen::ResolveInfo;
use ttl::update::{
    check_disabled, env_opt_out, flag_is_truthy, update_notice, InstallMethod, ENABLED,
};

fn v4(last: u8) -> IpAddr {
    IpAddr::V4(Ipv4Addr::new(192, 0, 2, last))
}

fn v6(last: u16) -> IpAddr {
    IpAddr::V6(Ipv6Addr::new(0x2001, 0xdb8, 0, 0, 0, 0, 0, last))
}

fn session_of(ip: IpAddr, flows: u8) -> Session {
    Session {
        target: Target {
            original: "host".to_string(),
            resolved: Address {
                ip,
                text: "addr".to_string(),
            },
            display: "host".to_string(),
            display_is_address: false,
            hostname: None,
        },
        config: Config {
            flows,
            ..Config::default()
        },
        started_at: 0,
        complete: false,
        dest_ttl: None,
        total_sent: 0,
        hops: vec![],
    }
}

#[test]
fn test_effective_flows_icmp_forces_single_flow() {
    let config = Config {
        protocol: ProbeProtocol::Icmp,
        flows: 8,
        ..Config::default()
    };
    assert_eq!(effective_flow_count_for_family(&config, false), 1);
    assert_eq!(effective_flow_count_for_family(&config, true), 1);
}

#[test]
fn test_effective_flows_udp_keeps_requested_flows() {
    let config = Config {
        protocol: ProbeProtocol::Udp,
        flows: 8,
        ..Config::default()
    };
    assert_eq!(effective_flow_count_for_family(&config, false), 8);
}

#[test]
fn test_effective_flows_tcp_keeps_requested_flows() {
    let config = Config {
        protocol: ProbeProtocol::Tcp,
        flows: 6,
        ..Config::default()
    };
    assert_eq!(effective_flow_count_for_family(&config, true), 6);
}

#[test]
fn test_effective_flows_single_flow_passthrough() {
    let config = Config {
        protocol: ProbeProtocol::Auto,
        flows: 1,
        ..Config::default()
    };
    assert_eq!(effective_flow_count_for_family(&config, false), 1);
}

#[test]
fn test_session_effective_flows_for_family_uses_session_config() {
    let ipv4 = IpAddr::V4(Ipv4Addr::new(1, 1, 1, 1));
    let ipv6 = IpAddr::V6(Ipv6Addr::new(0, 0, 0, 0, 0, 0, 0, 1));
    let sessions = vec![session_of(ipv4, 4), session_of(ipv6, 1)];
    let targets = vec![ipv4, ipv6];

    assert_eq!(
        session_effective_flows_for_family(&sessions, &targets, false, 8),
        4
    );
    assert_eq!(
        session_effective_flows_for_family(&sessions, &targets, true, 8),
        1
    );
}

#[test]
fn test_session_effective_flows_for_family_falls_back_to_default_when_family_missing() {
    let ipv4 = IpAddr::V4(Ipv4Addr::new(1, 1, 1, 1));
    let sessions = vec![session_of(ipv4, 3)];
    let targets = vec![ipv4];

    assert_eq!(
        session_effective_flows_for_family(&sessions, &targets, true, 7),
        7
    );
}

#[test]
fn automatic_choice_depends_on_sockets() {
    let config = Config {
        protocol: ProbeProtocol::Auto,
        flows: 4,
        ..Config::default()
    };
    assert!(needs_socket_check(&config));
    assert_eq!(effective_flow_count_for_family(&config, true), 1);
    assert_eq!(effective_flow_count_for_family(&config, false), 4);
    assert!(warn_flows_limited(&config, &vec![v4(1)], 1, 4));
    assert!(!warn_flows_limited(&config, &vec![v6(1)], 1, 4));

    // The first answer for a family is kept.
    let mut known_v4: Option<u8> = None;
    let mut known_v6: Option<u8> = None;
    let first =
        config_for_target_effective_flows(&config, v4(1), true, &mut known_v4, &mut known_v6);
    let second =
        config_for_target_effective_flows(&config, v4(2), false, &mut known_v4, &mut known_v6);
    assert_eq!((first.flows, second.flows), (1, 1));
    assert_eq!((known_v4, known_v6), (Some(1), None));
}

#[test]
fn each_family_has_a_receiver() {
    let sessions = vec![session_of(v4(1), 4), session_of(v6(1), 2)];
    let config = Config::default();
    let both = plan_receivers(&config, &sessions, &vec![v6(1), v4(1)], &Some(only_v4()));
    assert_eq!(both.len(), 2);
    assert_eq!((both[0].ipv6, both[0].num_flows), (false, 4));
    assert_eq!((both[1].ipv6, both[1].num_flows), (true, 2));
    assert_eq!(both[1].interface.as_ref().unwrap().name, "eth0");
    assert_eq!(plan_receivers(&config, &sessions, &vec![v6(1)], &None).len(), 1);
    assert!(plan_receivers(&config, &sessions, &vec![], &None).is_empty());
}

fn resolved(name: &str, ips: Vec<IpAddr>) -> Resolved {
    Resolved {
        name: name.to_string(),
        ips,
    }
}

#[test]
fn names_become_distinct_targets() {
    let list = vec![
        resolved("one", vec![v4(1), v4(2), v6(1)]),
        resolved("two", vec![v4(2), v4(3)]),
    ];
    let everything = resolve_targets(&list, true, false, false).unwrap();
    let ips: Vec<IpAddr> = everything.targets.iter().map(|t| t.ip).collect();
    assert_eq!(ips, vec![v4(1), v4(2), v6(1), v4(3)]);
    // Otherwise the family of the first address counts.
    let result = resolve_targets(&list, false, false, false).unwrap();
    let ips: Vec<IpAddr> = result.targets.iter().map(|t| t.ip).collect();
    assert_eq!(ips, vec![v4(1), v4(2), v4(3)]);
    assert_eq!(result.targets[1].primary, "one");
    assert_eq!(result.targets[1].aliases, vec!["two".to_string()]);
    assert_eq!((result.skipped_ipv4, result.skipped_ipv6), (0, 1));

    let six = resolve_targets(&list, true, false, true).unwrap();
    assert_eq!(six.targets.len(), 1);
    assert_eq!(six.skipped_ipv4, 3);
    assert_eq!(
        resolve_targets(&vec![resolved("x", vec![v4(1)])], true, false, true).unwrap_err(),
        "No IPv6 addresses found for targets"
    );
    assert_eq!(
        resolve_targets(&vec![resolved("x", vec![v6(1)])], true, true, false).unwrap_err(),
        "No IPv4 addresses found for targets"
    );
}

#[test]
fn one_address_of_a_host() {
    let ips = vec![v6(1), v4(1)];
    assert_eq!(resolve_target(&ips, false, false).unwrap(), v6(1));
    assert_eq!(resolve_target(&ips, true, false).unwrap(), v4(1));
    assert_eq!(
        resolve_target(&vec![], false, false).unwrap_err(),
        "No addresses found for hostname"
    );
    assert_eq!(
        resolve_target(&vec![v6(1)], true, false).unwrap_err(),
        "No IPv4 addresses found"
    );
    assert_eq!(
        resolve_target(&vec![v4(1)], false, true).unwrap_err(),
        "No IPv6 addresses found"
    );
}

fn only_v4() -> InterfaceInfo {
    InterfaceInfo {
        name: "eth0".to_string(),
        ipv4: Some(Ipv4Addr::new(10, 0, 0, 5)),
        ipv6: None,
        gateway_ipv4: Some(Ipv4Addr::new(10, 0, 0, 1)),
        gateway_ipv6: None,
    }
}

#[test]
fn interfaces_and_sources_fit_the_targets() {
    let both = families(&vec![v4(1), v6(1)]);
    assert_eq!(both, Families { ipv4: true, ipv6: true });
    match check_interface(&only_v4(), both) {
        InterfaceCheck::Usable(warnings) => assert_eq!(
            warnings,
            vec!["Warning: Interface 'eth0' has no IPv6 address; IPv6 targets will not use interface binding."]
        ),
        InterfaceCheck::Unusable(_) => panic!("a warning is enough"),
    }
    let six = families(&vec![v6(1)]);
    match check_interface(&only_v4(), six) {
        InterfaceCheck::Unusable(text) => assert_eq!(
            text,
            "Error: Interface 'eth0' has no IPv6 address but targets require IPv6. Use -4 to force IPv4."
        ),
        InterfaceCheck::Usable(_) => panic!("there is no address to use"),
    }
    let source = Address {
        ip: v4(9),
        text: "192.0.2.9".to_string(),
    };
    assert_eq!(check_source(&source, families(&vec![v4(1)])), None);
    assert_eq!(
        check_source(&source, six).unwrap(),
        "Error: Source IP 192.0.2.9 is IPv4 but targets are IPv6. Use -4 or -6 to force matching IP version."
    );
    assert!(check_source(&source, both).unwrap().contains("mixed IPv4/IPv6"));
    assert_eq!(only_v4().gateway(false), Some(IpAddr::V4(Ipv4Addr::new(10, 0, 0, 1))));
    assert_eq!(only_v4().gateway(true), None);
    assert_eq!(shown_source(None, IpAddr::V4(Ipv4Addr::new(0, 0, 0, 0))), None);
    assert_eq!(shown_source(Some(v4(9)), v4(1)), Some(v4(9)));
}

#[test]
fn requests_for_more_targets() {
    let have = Families {
        ipv4: true,
        ipv6: false,
    };
    let traced = vec![v4(1)];
    assert!(matches!(
        decide_add(&traced, v4(1), &None, &None, have),
        AddDecision::Existing
    ));
    assert!(matches!(
        decide_add(&traced, v4(2), &None, &None, have),
        AddDecision::Start { new_receiver: false }
    ));
    assert!(matches!(
        decide_add(&traced, v6(2), &None, &None, have),
        AddDecision::Start { new_receiver: true }
    ));
    match decide_add(&traced, v6(2), &None, &Some(only_v4()), have) {
        AddDecision::Refuse(text) => assert_eq!(text, "Interface 'eth0' has no IPv6 address"),
        _ => panic!("the interface cannot reach it"),
    }
    let source = Address {
        ip: v4(9),
        text: "192.0.2.9".to_string(),
    };
    match decide_add(&traced, v6(2), &Some(source), &None, have) {
        AddDecision::Refuse(text) => {
            assert_eq!(text, "--source-ip 192.0.2.9 does not match target family")
        }
        _ => panic!("the source cannot reach it"),
    }
    let mut targets = vec![v4(1)];
    assert!(!take_up(&mut targets, v4(1)));
    assert!(take_up(&mut targets, v4(2)));
    assert_eq!(targets, vec![v4(1), v4(2)]);
}

#[test]
fn sockets_by_platform() {
    let raw = SocketCapability::Raw;
    let dgram = SocketCapability::Dgram;
    assert_eq!(send_order(Platform::Linux), (raw, Some(dgram)));
    assert_eq!(send_order(Platform::MacOs), (dgram, Some(raw)));
    assert_eq!(recv_order(Platform::NetBsd), (raw, None));
    assert_eq!(traffic_class(46), 184);
    assert_eq!(dont_fragment(Platform::NetBsd, false), DontFragment::Unsupported);
    assert_eq!(
        dont_fragment(Platform::Linux, false),
        DontFragment::ByOption { option: 10, value: 2 }
    );
    assert_eq!(recv_ttl_option(Platform::Linux, false), 12);
    assert_eq!(source_address(SocketSource::Inet(0xc0000201)).unwrap(), v4(1));
    assert_eq!(
        source_address(SocketSource::Unknown(77)).unwrap_err(),
        "Unknown address family: 77"
    );
}

#[test]
fn permissions_by_trial() {
    let none = SocketTrials {
        raw_v4: false,
        raw_v6: false,
        dgram_v4: false,
        dgram_v6: false,
    };
    let (outcome, notes) = check_permissions(Platform::Linux, none, "/usr/bin/ttl");
    assert!(outcome.unwrap_err().contains("setcap cap_net_raw+ep /usr/bin/ttl"));
    assert!(notes.is_empty());
    let four = SocketTrials {
        raw_v4: true,
        ..none
    };
    let (outcome, notes) = check_permissions(Platform::FreeBsd, four, "ttl");
    assert_eq!(outcome.unwrap(), SocketCapability::Raw);
    assert_eq!(notes.len(), 1);
    let (outcome, _) = check_permissions(Platform::MacOs, four, "ttl");
    assert!(outcome.unwrap_err().starts_with("Failed to create ICMP socket"));
}

#[test]
fn the_ttl_comes_with_a_message() {
    let other = ControlMessage {
        level: 1,
        kind: 29,
        len: 32,
        value: 5,
    };
    let short = ControlMessage {
        level: 0,
        kind: 2,
        len: 16,
        value: 9,
    };
    let ttl = ControlMessage {
        level: 0,
        kind: 2,
        len: 20,
        value: 57,
    };
    let messages = vec![other, short, ttl];
    assert_eq!(response_ttl(Platform::Linux, false, 52, 20, false, &messages), Some(57));
    assert_eq!(response_ttl(Platform::Linux, false, 52, 20, true, &messages), None);
    assert_eq!(response_ttl(Platform::Linux, true, 52, 20, false, &messages), None);
}

#[test]
fn modes_of_output() {
    assert_eq!(check_session_size(MAX_SESSION_BYTES, "x"), None);
    assert!(check_session_size(MAX_SESSION_BYTES + 1, "x.json").unwrap().contains("x.json"));
    assert_eq!(
        json_array(&vec!["{}".to_string(), "[1]".to_string()]),
        "[{},[1]]\n"
    );
    assert_eq!(stream_tick(true, true), StreamTick::Events);
    assert_eq!(stream_tick(false, true), StreamTick::Quiet);
    assert_eq!(stream_tick(false, false), StreamTick::Print);
    assert!(daemon_warning(true, false, false)
        .unwrap()
        .starts_with("Warning: --daemon without --prometheus or --stream-json"));
    assert_eq!(daemon_warning(true, true, false), None);
    assert_eq!(
        replay_view(false, false, false, false, true, false),
        ReplayView::StillWithNote
    );
    assert_eq!(
        replay_view(false, false, false, true, true, true),
        ReplayView::Report
    );
    assert!(shutdown_trace_enabled(&Some(" True ".to_string())));
    assert!(!shutdown_trace_enabled(&Some("2".to_string())));
    assert!(!on_signal(false, "SIGINT").force_exit);
    assert_eq!(
        on_signal(true, "SIGINT").text,
        "SIGINT during shutdown, forcing exit."
    );
    let info = ResolveInfo {
        skipped_ipv4: 0,
        skipped_ipv6: 3,
    };
    assert_eq!(
        skip_notes(info),
        vec!["Note: 3 IPv6 addresses skipped (using IPv4)"]
    );
}

#[test]
fn warnings_about_targets() {
    let one = Address {
        ip: v4(1),
        text: "192.0.2.1".to_string(),
    };
    let two = Address {
        ip: v4(2),
        text: "192.0.2.2".to_string(),
    };
    assert_eq!(
        duplicate_warning("host", &one),
        "Warning: Duplicate target host (192.0.2.1), skipping"
    );
    assert_eq!(different_targets_warning(&one, &one), None);
    assert_eq!(
        different_targets_warning(&one, &two).unwrap(),
        "Warning: sessions trace different targets (192.0.2.1 vs 192.0.2.2)"
    );
}

#[test]
fn streams_print_what_is_new() {
    let mut session = session_of(v4(1), 1);
    session.hops.push(Hop {
        ttl: 1,
        sent: 2,
        received: 2,
        timeouts: 0,
        loss: "0.0".to_string(),
        responders: vec![],
        primary: None,
    });
    let (text, total) = stream_update(&session, true, 1).unwrap();
    assert!(text.starts_with("[addr]\n"));
    assert!(text.ends_with("---\n"));
    assert_eq!(total, 2);
    assert!(stream_update(&session, true, 2).is_none());
}

#[test]
fn added_targets_get_a_receiver_once_per_family() {
    let config = Config {
        flows: 4,
        protocol: ProbeProtocol::Auto,
        ..Config::default()
    };
    let sessions = vec![session_of(v4(1), 2)];
    let mut manager = TargetManager::new(&vec![v4(1)], &sessions, config.flows);
    assert!(matches!(
        manager.plan_add(v4(1), false, &config, &None, &None),
        AddPlan::Existing
    ));
    assert!(!manager.needs_check(v4(2), &config));
    match manager.plan_add(v4(2), false, &config, &None, &None) {
        AddPlan::Start { config, receiver } => {
            assert_eq!(config.flows, 2);
            assert!(receiver.is_none());
        }
        _ => panic!("the target is traced"),
    }
    assert!(manager.needs_check(v6(1), &config));
    match manager.plan_add(v6(1), true, &config, &None, &None) {
        AddPlan::Start { config, receiver } => {
            assert_eq!(config.flows, 1);
            let receiver = receiver.unwrap();
            assert!(receiver.ipv6);
            assert_eq!(receiver.num_flows, 1);
        }
        _ => panic!("the target is traced"),
    }
    match manager.plan_add(v6(2), false, &config, &None, &None) {
        AddPlan::Start { config, receiver } => {
            assert_eq!(config.flows, 1);
            assert!(receiver.is_none());
        }
        _ => panic!("the target is traced"),
    }
    let source = Some(Address {
        ip: v4(9),
        text: "192.0.2.9".to_string(),
    });
    match manager.plan_add(v6(3), false, &config, &source, &None) {
        AddPlan::Refuse(text) => {
            assert_eq!(text, "--source-ip 192.0.2.9 does not match target family")
        }
        _ => panic!("the target is refused"),
    }
    assert_eq!(manager.traced, vec![v4(1), v4(2), v6(1), v6(2)]);
}

#[test]
fn nothing_is_streamed_twice() {
    let targets: Vec<Address> = [1, 2, 3]
        .iter()
        .map(|last| Address {
            ip: v4(*last),
            text: format!("192.0.2.{}", last),
        })
        .collect();
    let mut sessions = vec![session_of(v4(1), 1), session_of(v4(2), 1)];
    for session in sessions.iter_mut() {
        session.hops = vec![Hop {
            ttl: 1,
            sent: 2,
            received: 2,
            timeouts: 0,
            loss: "0.0".to_string(),
            responders: vec![],
            primary: None,
        }];
    }
    let mut seen = Vec::new();
    let first = stream_round(&targets, &sessions, &mut seen);
    assert_eq!(first.matches("---\n").count(), 2);
    assert_eq!(stream_round(&targets, &sessions, &mut seen), "");
    sessions[1].hops[0].received = 3;
    assert_eq!(stream_round(&targets, &sessions, &mut seen).matches("---\n").count(), 1);
    assert_eq!(seen.len(), 2);
    assert_eq!((seen[0].answers, seen[1].answers), (2, 3));
}

#[test]
fn batches_name_their_targets() {
    let targets: Vec<Address> = vec![
        Address {
            ip: v4(1),
            text: "192.0.2.1".to_string(),
        },
        Address {
            ip: v4(2),
            text: "192.0.2.2".to_string(),
        },
    ];
    let sessions = vec![session_of(v4(1), 1), session_of(v4(2), 1)];
    let text = batch_text(&targets, &sessions, false, true);
    assert!(text.contains("=== Target 2/2: 192.0.2.2 ==="));
    assert_eq!(text.matches("last_ms").count(), 2);
}

#[test]
fn test_prefs_default() {
    let prefs = Prefs::default();
    assert!(prefs.theme.is_none());
    assert!(prefs.display_mode.is_none());
    assert!(prefs.peeringdb_api_key.is_none());
    assert!(prefs.no_update_check.is_none());
}

#[test]
fn test_display_mode_cycling() {
    assert_eq!(DisplayMode::Auto.next(), DisplayMode::Compact);
    assert_eq!(DisplayMode::Compact.next(), DisplayMode::Wide);
    assert_eq!(DisplayMode::Wide.next(), DisplayMode::Auto);
}

#[test]
fn test_display_mode_labels() {
    assert_eq!(DisplayMode::Auto.label(), "auto");
    assert_eq!(DisplayMode::Compact.label(), "compact");
    assert_eq!(DisplayMode::Wide.label(), "wide");
}

#[test]
fn test_display_mode_default_is_auto() {
    assert_eq!(DisplayMode::default(), DisplayMode::Auto);
}

#[test]
fn test_display_mode_full_cycle() {
    // Verify cycling returns to start after 3 steps
    let start = DisplayMode::Auto;
    let after_one = start.next();
    let after_two = after_one.next();
    let after_three = after_two.next();
    assert_eq!(after_three, start);
}

#[test]
fn test_display_mode_equality() {
    assert_eq!(DisplayMode::Auto, DisplayMode::Auto);
    assert_eq!(DisplayMode::Compact, DisplayMode::Compact);
    assert_eq!(DisplayMode::Wide, DisplayMode::Wide);
    assert_ne!(DisplayMode::Auto, DisplayMode::Compact);
    assert_ne!(DisplayMode::Auto, DisplayMode::Wide);
    assert_ne!(DisplayMode::Compact, DisplayMode::Wide);
}

#[test]
fn test_display_mode_copy() {
    let mode = DisplayMode::Auto;
    let copied = mode; // Copy
    assert_eq!(mode, copied); // Original still usable (Copy trait)
}

#[test]
fn test_flag_is_truthy() {
    for on in ["1", "true", "yes", "on", " 1 "] {
        assert!(flag_is_truthy(on), "{on:?} should count as opt-out");
    }
    for off in ["", "  ", "0", "false"] {
        assert!(!flag_is_truthy(off), "{off:?} should not count as opt-out");
    }
}

#[test]
fn test_check_disabled_precedence() {
    // The tristate resolution only matters when the check is compiled in.
    if !ENABLED {
        assert!(check_disabled(false, false, Some(false)));
        return;
    }
    // Saved pref governs when env/CLI are quiet.
    assert!(check_disabled(false, false, Some(true))); // opt out
    assert!(!check_disabled(false, false, Some(false))); // explicitly on
    assert!(!check_disabled(false, false, None)); // default on
    // env or CLI opt-out wins over an explicit pref "on".
    assert!(check_disabled(true, false, Some(false)));
    assert!(check_disabled(false, true, Some(false)));
}

#[test]
fn test_install_method_commands() {
    assert_eq!(InstallMethod::Homebrew.update_command(), "brew upgrade ttl");
    assert_eq!(InstallMethod::Cargo.update_command(), "cargo install ttl");
    assert!(
        InstallMethod::Binary
            .update_command()
            .contains("github.com")
    );
}

#[test]
fn preferences_can_be_overridden() {
    let prefs = override_prefs(Prefs::default(), "dracula", true);
    assert_eq!(prefs.theme, Some("dracula".to_string()));
    assert_eq!(prefs.display_mode, Some(DisplayMode::Wide));
    let kept = override_prefs(prefs, "default", false);
    assert_eq!(kept.theme, Some("dracula".to_string()));
    assert_eq!(typed_key(""), None);
    assert_eq!(typed_key("k"), Some("k".to_string()));
}

#[test]
fn installations_are_recognised() {
    let at = |path: &str| InstallMethod::detect(&Some(path.to_string()));
    assert_eq!(at("/opt/homebrew/bin/ttl"), InstallMethod::Homebrew);
    assert_eq!(at("/usr/local/Cellar/ttl/1/bin/ttl"), InstallMethod::Homebrew);
    assert_eq!(at("/home/u/.cargo/bin/ttl"), InstallMethod::Cargo);
    assert_eq!(at("/usr/bin/ttl"), InstallMethod::Binary);
    assert_eq!(InstallMethod::detect(&None), InstallMethod::Binary);
    let mut found = Some(InstallMethod::Cargo);
    assert_eq!(
        InstallMethod::cached(&mut found, &Some("/usr/bin/ttl".to_string())),
        InstallMethod::Cargo
    );
}

#[test]
fn the_update_notice_is_boxed() {
    let text = update_notice("1.0", "2.0", InstallMethod::Cargo);
    let lines: Vec<&str> = text.lines().collect();
    assert_eq!(lines.len(), 5);
    assert!(lines[2].contains("Update available: 1.0 -> 2.0"));
    assert!(lines[3].contains("Run: cargo install ttl"));
    assert_eq!(lines[1], lines[4]);
}

#[test]
fn the_environment_opts_out() {
    let on = Some("1".to_string());
    assert!(env_opt_out(&on, &None));
    assert!(env_opt_out(&None, &on));
    assert!(!env_opt_out(&Some("0".to_string()), &None));
}
