//! Planning of probes and path-MTU discovery.

use ttl::addr::{IpAddr, Ipv4Addr, Ipv6Addr};
use ttl::config::{Config, ProbeProtocol};
use ttl::probe::correlate::ParsedResponse;
use ttl::probe::rawip::internet_checksum;
use ttl::state::{IcmpResponseType, PmtudPhase, PmtudState, ProbeId};
use ttl::trace::engine::{
    check_pmtud_ready, choose_carrier, echo_message_v6, echo_packet_v4, forget_pmtud,
    forget_probe, get_pmtud_probe_size, handle_pmtud_df_error, ipv4_bind_src, ipv4_src, ipv4_tos,
    is_polled_reply, payload_size, plan_polled_reply, plan_round, poll_goes_on, ports_fit,
    register_pmtud, register_probe, tcp_packet_v4, udp_packet_v4, v6_pair, Carrier, PmtudReady,
    Rounds, Tick, MAX_IPV6_ECHO_DRAIN_BATCH,
};
use ttl::trace::pending::{PendingMap, PendingProbe};
use ttl::trace::receiver::{receiver_config, HopUpdate, PmtudUpdate, Receiver, RecvEvent};

fn searching() -> PmtudState {
    PmtudState {
        phase: PmtudPhase::Searching,
        min_size: 68,
        max_size: 1500,
        current_size: 1500,
        successes: 1,
        failures: 2,
        discovered_mtu: None,
    }
}

#[test]
fn test_handle_pmtud_df_error_marks_complete_for_unsupported_df() {
    let mut state = Some(searching());
    handle_pmtud_df_error(&mut state, true);

    let pmtud = state.as_ref().expect("PMTUD state should exist");
    assert_eq!(pmtud.phase, PmtudPhase::Complete);
    assert!(pmtud.discovered_mtu.is_none());
}

#[test]
fn test_handle_pmtud_df_error_keeps_searching_for_general_errors() {
    let mut state = Some(searching());
    handle_pmtud_df_error(&mut state, false);

    let pmtud = state.as_ref().expect("PMTUD state should exist");
    assert_eq!(pmtud.phase, PmtudPhase::Searching);
}

#[test]
fn carriers_fall_back() {
    let auto = ProbeProtocol::Auto;
    assert_eq!(choose_carrier(auto, None, true, true).carrier, Carrier::Echo);
    let udp = choose_carrier(auto, None, false, true);
    assert_eq!((udp.carrier, udp.port), (Carrier::Udp, Some(33434)));
    let tcp = choose_carrier(auto, None, false, false);
    assert_eq!((tcp.carrier, tcp.port), (Carrier::Tcp, Some(80)));
    let given = choose_carrier(auto, Some(443), false, false);
    assert_eq!(given.port, Some(443));
    let plain = choose_carrier(ProbeProtocol::Udp, None, true, true);
    assert_eq!((plain.carrier, plain.port), (Carrier::Udp, None));
}

#[test]
fn rounds_count_and_finish() {
    let mut rounds = Rounds::new();
    assert_eq!(rounds.tick(true, Some(1), None, 30), Tick::Wait);
    assert_eq!(rounds.tick(false, Some(1), None, 30), Tick::Probe(30));
    assert_eq!(rounds.tick(false, Some(1), Some(7), 30), Tick::Probe(7));
    rounds.round_done();
    assert_eq!(rounds.tick(false, Some(1), None, 30), Tick::Finish);
    assert_eq!(rounds.tick(false, None, None, 30), Tick::Probe(30));
    rounds.seq = 255;
    rounds.round_done();
    assert_eq!(rounds.seq, 0);
    rounds.pmtud_sent();
    assert_eq!(rounds.pmtud_seq, 1);
}

#[test]
fn payload_sizes_leave_room_for_headers() {
    assert_eq!(payload_size(Carrier::Echo, false, Some(1500)), 1472);
    assert_eq!(payload_size(Carrier::Echo, true, Some(1500)), 1452);
    assert_eq!(payload_size(Carrier::Tcp, false, Some(1500)), 1460);
    assert_eq!(payload_size(Carrier::Udp, false, Some(20)), 0);
    assert_eq!(payload_size(Carrier::Echo, false, None), 56);
    assert_eq!(payload_size(Carrier::Udp, false, None), 32);
    assert_eq!(payload_size(Carrier::Tcp, false, None), 0);
}

#[test]
fn a_round_has_every_flow_and_distance() {
    let config = Config {
        flows: 2,
        port: Some(40000),
        ..Config::default()
    };
    let round = plan_round(&config, Carrier::Udp, false, 9, 3);
    assert_eq!(round.len(), 6);
    let ports: Vec<Option<u16>> = round.iter().map(|p| p.dst_port).collect();
    assert_eq!(
        ports,
        vec![Some(40001), Some(40002), Some(40003), Some(40001), Some(40002), Some(40003)]
    );
    assert_eq!(round[3].src_port, Some(50001));
    assert_eq!(round[3].probe_id, ProbeId::new(1, 9));

    // Each flow is read back from the port that its probes are sent from.
    let receiver = Receiver::new(receiver_config(&config, false, 2, &None));
    for probe in &round {
        assert_eq!(receiver.derive_flow_hint(probe.src_port), Some(probe.flow_id));
    }

    let fixed = Config {
        port_fixed: true,
        ..Config::default()
    };
    let round = plan_round(&fixed, Carrier::Tcp, false, 0, 2);
    assert_eq!(round[1].dst_port, Some(80));
    let echo = plan_round(&fixed, Carrier::Echo, false, 0, 2);
    assert_eq!(echo.len(), 2);
    assert_eq!(echo[0].src_port, None);
}

#[test]
fn registered_probes_can_be_forgotten() {
    let target = IpAddr::V4(Ipv4Addr::new(1, 1, 1, 1));
    let mut pending = PendingMap::new();
    let round = plan_round(&Config::default(), Carrier::Echo, false, 0, 1);
    register_probe(&mut pending, &round[0], target, 5);
    register_pmtud(&mut pending, 9, 0, target, 1400, 6);
    assert_eq!(pending.len(), 2);
    forget_probe(&mut pending, &round[0], target);
    forget_pmtud(&mut pending, 9, 0, target);
    assert_eq!(pending.len(), 0);
}

#[test]
fn packets_carry_their_probe() {
    let src = Ipv4Addr::new(10, 0, 0, 1);
    let dst = Ipv4Addr::new(10, 0, 0, 2);
    let echo = echo_packet_v4(0x1111, ProbeId::new(4, 5), 16, false, 7, src, dst, 0x20, false);
    assert_eq!(echo.len(), 20 + 8 + 16);
    assert_eq!((echo[1], echo[8], echo[9], echo[20]), (0x20, 4, 1, 8));
    assert_eq!(&echo[24..28], &[0x11, 0x11, 4, 5]);

    let udp = udp_packet_v4(ProbeId::new(4, 5), 16, 50000, 33438, src, dst, 0, false);
    assert_eq!(udp.len(), 20 + 8 + 16);
    assert_eq!((udp[8], udp[9]), (4, 17));
    assert_eq!(&udp[28..30], &[4, 5]);

    let tcp = tcp_packet_v4(&[1, 2, 3], 6, src, dst, 0, false);
    assert_eq!((tcp.len(), tcp[8], tcp[9], tcp[20]), (23, 6, 6, 1));

    let a = Ipv6Addr::new(0xfe80, 0, 0, 0, 0, 0, 0, 1);
    let b = Ipv6Addr::new(0xfe80, 0, 0, 0, 0, 0, 0, 2);
    let v6 = echo_message_v6(0x2222, ProbeId::new(4, 5), 16, false, 7, Some((a, b)));
    let mut covered: Vec<u8> = Vec::new();
    for s in a.segments().iter().chain(b.segments().iter()) {
        covered.extend_from_slice(&s.to_be_bytes());
    }
    covered.extend_from_slice(&(v6.len() as u32).to_be_bytes());
    covered.extend_from_slice(&[0, 0, 0, 58]);
    covered.extend_from_slice(&v6);
    assert_eq!(internet_checksum(&covered), 0);
}

#[test]
fn sources_and_marks() {
    let v4 = Ipv4Addr::new(192, 0, 2, 1);
    let v6 = Ipv6Addr::new(0x2001, 0xdb8, 0, 0, 0, 0, 0, 1);
    let routed = IpAddr::V4(v4);
    assert_eq!(ipv4_src(Some(routed), IpAddr::V6(v6)).unwrap(), v4);
    assert_eq!(ipv4_src(None, routed).unwrap(), v4);
    assert_eq!(ipv4_src(None, IpAddr::V6(v6)).unwrap(), Ipv4Addr::new(0, 0, 0, 0));
    assert_eq!(
        ipv4_src(Some(IpAddr::V6(v6)), routed).unwrap_err(),
        "--source-ip is an IPv6 address but the target is IPv4"
    );
    assert_eq!(ipv4_bind_src(Some(routed)), Some(v4));
    assert_eq!(ipv4_bind_src(None), None);
    assert_eq!(v6_pair(IpAddr::V6(v6), IpAddr::V6(v6)), Some((v6, v6)));
    assert_eq!(v6_pair(routed, IpAddr::V6(v6)), None);
    assert_eq!(ipv4_tos(Some(46)), 184);
    assert_eq!(ipv4_tos(None), 0);
}

#[test]
fn the_size_search_starts_and_settles() {
    let waiting = PmtudState {
        phase: PmtudPhase::WaitingForDestination,
        ..searching()
    };
    assert_eq!(check_pmtud_ready(true, None, Some(waiting)), PmtudReady::NotDue);
    assert_eq!(check_pmtud_ready(true, Some(8), Some(waiting)), PmtudReady::Start(8));
    assert_eq!(check_pmtud_ready(true, Some(8), Some(searching())), PmtudReady::Due(8));
    assert_eq!(check_pmtud_ready(false, Some(8), Some(searching())), PmtudReady::NotDue);
    assert_eq!(get_pmtud_probe_size(Some(searching())), Some(1500));
    assert_eq!(get_pmtud_probe_size(Some(waiting)), None);

    let mut state = searching();
    state.record_refused(1400);
    assert_eq!((state.max_size, state.successes, state.failures), (1399, 0, 0));
    assert_eq!((state.current_size, state.phase), (734, PmtudPhase::Searching));
    state.min_size = 1300;
    state.record_refused(1301);
    assert_eq!((state.discovered_mtu, state.phase), (Some(1300), PmtudPhase::Complete));
}

#[test]
fn replies_on_the_send_socket() {
    let target = IpAddr::V6(Ipv6Addr::new(0x2001, 0xdb8, 0, 0, 0, 0, 0, 9));
    let parsed = ParsedResponse {
        responder: target,
        probe_id: ProbeId::new(6, 1),
        response_type: IcmpResponseType::EchoReply,
        is_pmtud: false,
        mpls_labels: None,
        src_port: None,
        mtu: None,
        quoted_ttl: None,
        original_dest: Some(target),
    };
    assert!(is_polled_reply(&parsed));
    let probe = PendingProbe {
        sent_at: 1_000,
        target,
        flow_id: 0,
        original_src_port: None,
        packet_size: None,
    };
    let plan = plan_polled_reply(&parsed, &probe, target, Some(61), 4_500, Some(9), None);
    assert!(plan.reached);
    assert_eq!(
        plan.hop,
        Some(HopUpdate {
            detect_flaps: true,
            flow_id: 0,
            sent_port: None,
            returned_port: None,
            response_ttl: Some(61),
            ipv6: true,
            manipulated_ttl: None,
        })
    );
    assert_eq!((plan.rtt, plan.dest_ttl), (3_500, Some(6)));
    assert_eq!(plan.pmtud, PmtudUpdate::Keep);

    let sized = PendingProbe {
        packet_size: Some(1500),
        ..probe
    };
    let plan =
        plan_polled_reply(&parsed, &sized, target, None, 4_500, Some(9), Some(searching()));
    assert_eq!(plan.hop, None);
    assert_eq!(plan.pmtud, PmtudUpdate::Success);
}

#[test]
fn the_send_socket_is_read_until_it_is_drained() {
    assert!(poll_goes_on(None, 0, false));
    assert!(!poll_goes_on(None, 0, true));
    assert!(poll_goes_on(Some(RecvEvent::Packet), MAX_IPV6_ECHO_DRAIN_BATCH - 1, false));
    assert!(!poll_goes_on(Some(RecvEvent::Packet), MAX_IPV6_ECHO_DRAIN_BATCH, false));
    assert!(!poll_goes_on(Some(RecvEvent::Drained), 1, false));
    assert!(!poll_goes_on(Some(RecvEvent::Failed), 1, false));
}

/// Searches a path that passes packets of at most `mtu` bytes and reports
/// nothing about larger ones.
fn searched(ipv6: bool, jumbo: bool, mtu: u16) -> PmtudState {
    let mut state = PmtudState::new(ipv6, jumbo);
    state.start_search();
    let mut steps = 0;
    while state.phase == PmtudPhase::Searching {
        if state.current_size <= mtu {
            state.record_success();
        } else {
            state.record_failure();
        }
        steps += 1;
        assert!(steps < 100);
    }
    state
}

#[test]
fn a_search_waits_for_the_destination() {
    let state = PmtudState::new(false, false);
    assert_eq!(state.phase, PmtudPhase::WaitingForDestination);
    assert_eq!((state.min_size, state.max_size, state.current_size), (68, 1500, 1500));
    let jumbo = PmtudState::new(true, true);
    assert_eq!((jumbo.min_size, jumbo.max_size, jumbo.current_size), (1280, 9216, 9216));
    assert!(!state.is_converged());
    assert_eq!(state.next_probe_size(), 784);
}

#[test]
fn a_size_that_passes_ends_or_raises_the_search() {
    let mut state = PmtudState::new(false, false);
    state.start_search();
    assert_eq!(state.phase, PmtudPhase::Searching);
    state.record_failure();
    assert_eq!((state.current_size, state.failures), (1500, 1));
    state.record_failure();
    assert_eq!((state.max_size, state.current_size, state.failures), (1499, 784, 0));
    state.record_success();
    assert_eq!((state.min_size, state.current_size), (784, 1142));

    let mut whole = PmtudState::new(false, false);
    whole.start_search();
    whole.record_success();
    assert_eq!(whole.phase, PmtudPhase::Complete);
    assert_eq!(whole.discovered_mtu, Some(1500));
}

#[test]
fn a_reported_mtu_is_tried_next() {
    let mut state = PmtudState::new(false, false);
    state.start_search();
    state.record_frag_needed(1400);
    assert_eq!((state.max_size, state.current_size), (1400, 1400));
    state.record_success();
    assert_eq!(state.discovered_mtu, Some(1400));

    let mut odd = PmtudState::new(false, false);
    odd.start_search();
    odd.record_frag_needed(9000);
    assert_eq!((odd.current_size, odd.failures), (1500, 1));
    odd.record_frag_needed(20);
    assert_eq!((odd.max_size, odd.current_size), (1499, 784));
}

#[test]
fn every_search_finds_the_mtu() {
    for mtu in [68, 69, 576, 1280, 1400, 1492, 1499, 1500] {
        assert_eq!(searched(false, false, mtu).discovered_mtu, Some(mtu));
    }
    for mtu in [1280, 1281, 1500, 9000, 9215, 9216] {
        assert_eq!(searched(true, true, mtu).discovered_mtu, Some(mtu));
    }
}

#[test]
fn ports_of_a_round_are_in_range() {
    let high = Config {
        src_port_base: 65534,
        flows: 3,
        ..Config::default()
    };
    assert!(!ports_fit(&high, Carrier::Udp, 30));
    assert!(ports_fit(&high, Carrier::Echo, 30));
    let two = Config { flows: 2, ..high };
    assert!(ports_fit(&two, Carrier::Udp, 30));
    let late = Config {
        port: Some(65530),
        ..two
    };
    assert!(ports_fit(&late, Carrier::Tcp, 5));
    assert!(!ports_fit(&late, Carrier::Tcp, 6));
    let fixed = Config {
        port_fixed: true,
        ..late
    };
    assert!(ports_fit(&fixed, Carrier::Tcp, 255));
}
