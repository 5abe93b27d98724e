//! Matching of answers with outstanding probes.

use ttl::addr::{IpAddr, Ipv4Addr, Ipv6Addr};
use ttl::config::Config;
use ttl::probe::correlate::ParsedResponse;
use ttl::probe::interface::InterfaceInfo;
use ttl::state::{IcmpResponseType, PmtudPhase, PmtudState, ProbeId};
use ttl::trace::engine::{
    plan_round, probe_message_v6, probe_packet_v4, register_probe, Carrier,
};
use ttl::trace::pending::{PendingKey, PendingMap, PendingProbe};
use ttl::trace::receiver::{
    flush_pending_as_timeouts, nearer_ttl, next_stage, plan_pmtud, plan_timeout, DrainStep,
    PmtudUpdate, Received, Receiver, ReceiverConfig, RecvEvent, RecvPacket, Stage,
    MAX_CONSECUTIVE_ERRORS, MAX_DRAIN_BATCH,
};

fn test_receiver(num_flows: u8) -> Receiver {
    Receiver::new(ReceiverConfig {
        timeout: 1_000_000_000,
        ipv6: false,
        src_port_base: 50000,
        num_flows,
        interface: None,
        recv_any: false,
    })
}

fn key(probe_id: ProbeId, flow_id: u8, target: IpAddr, is_pmtud: bool) -> PendingKey {
    PendingKey {
        probe_id,
        flow_id,
        target,
        is_pmtud,
    }
}

fn probe(target: IpAddr, flow_id: u8, packet_size: Option<u16>) -> PendingProbe {
    PendingProbe {
        sent_at: 0,
        target,
        flow_id,
        original_src_port: Some(50000 + flow_id as u16),
        packet_size,
    }
}

fn answer(probe_id: ProbeId, responder: IpAddr, src_port: Option<u16>) -> ParsedResponse {
    ParsedResponse {
        responder,
        probe_id,
        response_type: IcmpResponseType::TimeExceeded(0),
        mpls_labels: None,
        src_port,
        mtu: None,
        quoted_ttl: Some(1),
        original_dest: None,
        is_pmtud: false,
    }
}

#[test]
fn test_derive_flow_hint_in_range() {
    let receiver = test_receiver(4);
    assert_eq!(receiver.derive_flow_hint(Some(50002)), Some(2));
}

#[test]
fn test_derive_flow_hint_out_of_range_is_unknown() {
    let receiver = test_receiver(4);
    assert_eq!(receiver.derive_flow_hint(Some(61000)), None);
}

#[test]
fn test_derive_flow_hint_none_single_flow_is_zero() {
    let receiver = test_receiver(1);
    assert_eq!(receiver.derive_flow_hint(None), Some(0));
}

#[test]
fn test_remove_pending_unknown_flow_unambiguous() {
    let probe_id = ProbeId::new(3, 7);
    let target = IpAddr::V4(Ipv4Addr::new(1, 1, 1, 1));
    let mut pending = PendingMap::new();
    pending.insert(key(probe_id, 3, target, false), probe(target, 3, None));

    let removed = Receiver::remove_pending_by_flow_hint(&mut pending, probe_id, target, None);
    assert!(removed.is_some(), "single candidate should be removable");
    assert_eq!(pending.len(), 0);
}

#[test]
fn test_remove_pending_unknown_flow_ambiguous() {
    let probe_id = ProbeId::new(3, 7);
    let target = IpAddr::V4(Ipv4Addr::new(1, 1, 1, 1));
    let mut pending = PendingMap::new();
    for flow_id in [0u8, 1u8] {
        pending.insert(
            key(probe_id, flow_id, target, false),
            probe(target, flow_id, None),
        );
    }

    let removed = Receiver::remove_pending_by_flow_hint(&mut pending, probe_id, target, None);
    assert!(
        removed.is_none(),
        "ambiguous candidates should not be forced"
    );
    assert_eq!(pending.len(), 2);
}

#[test]
fn test_remove_pending_unknown_flow_prefers_unique_normal_over_pmtud() {
    let probe_id = ProbeId::new(2, 9);
    let target = IpAddr::V4(Ipv4Addr::new(8, 8, 8, 8));
    let mut pending = PendingMap::new();
    pending.insert(key(probe_id, 1, target, false), probe(target, 1, None));
    pending.insert(key(probe_id, 2, target, true), probe(target, 2, Some(1400)));

    let removed = Receiver::remove_pending_by_flow_hint(&mut pending, probe_id, target, None);
    assert!(removed.is_some());
    let removed = removed.unwrap();
    assert_eq!(removed.flow_id, 1);
    assert_eq!(pending.len(), 1);
    assert!(pending.contains_key(&key(probe_id, 2, target, true)));
}

#[test]
fn test_remove_pending_unknown_flow_ambiguous_normal_does_not_fall_back_to_pmtud() {
    let probe_id = ProbeId::new(2, 10);
    let target = IpAddr::V4(Ipv4Addr::new(9, 9, 9, 9));
    let mut pending = PendingMap::new();
    for flow_id in [0u8, 1u8] {
        pending.insert(
            key(probe_id, flow_id, target, false),
            probe(target, flow_id, None),
        );
    }
    pending.insert(key(probe_id, 3, target, true), probe(target, 3, Some(1500)));

    let removed = Receiver::remove_pending_by_flow_hint(&mut pending, probe_id, target, None);
    assert!(removed.is_none());
    assert_eq!(pending.len(), 3);
}

#[test]
fn an_answer_is_taken_once() {
    let receiver = test_receiver(1);
    let probe_id = ProbeId::new(2, 1);
    let target = IpAddr::V4(Ipv4Addr::new(9, 9, 9, 9));
    let hop = IpAddr::V4(Ipv4Addr::new(10, 0, 0, 1));
    let mut pending = PendingMap::new();
    pending.insert(key(probe_id, 0, target, false), probe(target, 0, None));

    let first = receiver.receive(
        answer(probe_id, hop, None),
        Some(60),
        2_500,
        &mut pending,
        &vec![target],
    );
    match first {
        Received::Matched(resp) => {
            assert_eq!(resp.rtt, 2_500);
            assert_eq!(resp.responder, hop);
            assert_eq!(resp.target, target);
            assert_eq!(resp.response_ttl, Some(60));
            let plan = receiver.plan_response(&resp, None, None);
            assert!(!plan.reached);
            assert_eq!(plan.dest_ttl, None);
            assert!(plan.hop.unwrap().detect_flaps);
            assert_eq!(plan.hop.unwrap().response_ttl, Some(60));
            assert!(!plan.hop.unwrap().ipv6);
        }
        _ => panic!("the answer belongs to the probe"),
    }
    assert_eq!(pending.len(), 0);

    let second = receiver.receive(
        answer(probe_id, hop, None),
        Some(60),
        3_000,
        &mut pending,
        &vec![target],
    );
    assert!(!matches!(second, Received::Matched(_)));
}

#[test]
fn the_receiver_stops_after_too_many_errors() {
    let mut receiver = test_receiver(1);
    let mut batch: usize = 0;
    let mut steps: u32 = 0;
    loop {
        steps += 1;
        if receiver.drain_step(&mut batch, RecvEvent::Failed) == DrainStep::Stop {
            break;
        }
    }
    assert_eq!(steps, MAX_CONSECUTIVE_ERRORS);
}

#[test]
fn a_full_batch_is_applied() {
    let mut receiver = test_receiver(1);
    let mut batch: usize = 0;
    let mut packets: usize = 0;
    loop {
        packets += 1;
        if receiver.drain_step(&mut batch, RecvEvent::Packet) == DrainStep::Apply {
            break;
        }
    }
    assert_eq!(packets, MAX_DRAIN_BATCH);
    let mut fresh: usize = 0;
    assert_eq!(receiver.drain_step(&mut fresh, RecvEvent::Drained), DrainStep::Apply);
}

#[test]
fn overdue_probes_time_out() {
    let receiver = test_receiver(1);
    let target = IpAddr::V4(Ipv4Addr::new(9, 9, 9, 9));
    let mut pending = PendingMap::new();
    let old = ProbeId::new(1, 0);
    let young = ProbeId::new(2, 0);
    pending.insert(key(old, 0, target, false), probe(target, 0, None));
    let mut recent = probe(target, 0, None);
    recent.sent_at = 900_000_000;
    pending.insert(key(young, 0, target, false), recent);

    let taken = receiver.take_timed_out(&mut pending, 1_500_000_000);
    assert_eq!(taken.len(), 1);
    assert_eq!(taken[0].key.probe_id, old);
    assert!(plan_timeout(&taken[0].probe, None).hop_timeout);

    let flushed = flush_pending_as_timeouts(&mut pending);
    assert_eq!(flushed.len(), 1);
    assert_eq!(pending.len(), 0);
}

#[test]
fn the_distance_never_grows() {
    assert_eq!(nearer_ttl(None, 12), Some(12));
    assert_eq!(nearer_ttl(Some(9), 12), Some(9));
    assert_eq!(nearer_ttl(Some(9), 4), Some(4));
}

#[test]
fn stale_sizes_leave_the_search_alone() {
    let state = PmtudState {
        phase: PmtudPhase::Searching,
        min_size: 68,
        max_size: 1500,
        current_size: 1400,
        successes: 0,
        failures: 0,
        discovered_mtu: None,
    };
    let reply = IcmpResponseType::EchoReply;
    assert_eq!(plan_pmtud(Some(1300), reply, None, Some(state)), PmtudUpdate::Keep);
    assert_eq!(plan_pmtud(Some(1400), reply, None, Some(state)), PmtudUpdate::Success);
    assert_eq!(
        plan_pmtud(Some(1400), IcmpResponseType::PacketTooBig, Some(1280), Some(state)),
        PmtudUpdate::FragNeeded(1280)
    );
    assert_eq!(
        plan_pmtud(Some(1400), IcmpResponseType::DestUnreachable(4), None, Some(state)),
        PmtudUpdate::Failure
    );
}

/// A raw IPv4 packet with an ICMP error that quotes a packet.
fn time_exceeded_v4(quoted: &[u8]) -> Vec<u8> {
    let mut data = vec![0u8; 28];
    data[0] = 0x45;
    data[9] = 1;
    data[20] = 11;
    data.extend_from_slice(quoted);
    data
}

#[test]
fn every_kind_of_probe_finds_its_answer() {
    let src = Ipv4Addr::new(10, 0, 0, 1);
    let dst = Ipv4Addr::new(10, 9, 9, 9);
    let target = IpAddr::V4(dst);
    let router = IpAddr::V4(Ipv4Addr::new(10, 0, 0, 254));
    for carrier in [Carrier::Echo, Carrier::Udp, Carrier::Tcp] {
        let flows = if carrier == Carrier::Echo { 1 } else { 3 };
        let config = Config {
            flows,
            ..Config::default()
        };
        let receiver = test_receiver(flows);
        let mut pending = PendingMap::new();
        let round = plan_round(&config, carrier, false, 7, 4);
        for probe in &round {
            register_probe(&mut pending, probe, target, 1_000);
        }
        for probe in &round {
            let sent = probe_packet_v4(carrier, 0x4242, probe, 99, src, dst, 0, false);
            let packet = RecvPacket {
                data: time_exceeded_v4(&sent),
                source: router,
                is_dgram: false,
                response_ttl: Some(61),
            };
            let left = pending.len();
            let others = vec![router, target];
            match receiver.on_packet(&packet, 0x4242, 3_500, &mut pending, &others) {
                Some(Received::Matched(response)) => {
                    assert_eq!(response.probe_id, probe.probe_id);
                    assert_eq!(response.flow_id, probe.flow_id);
                    assert_eq!(response.target, target);
                    assert_eq!(response.responder, router);
                    assert_eq!(response.rtt, 2_500);
                    assert_eq!(response.response_ttl, Some(61));
                    assert_eq!(response.quoted_ttl, Some(probe.probe_id.ttl));
                }
                other => panic!("{:?}", other),
            }
            assert_eq!(pending.len(), left - 1);
            // The same answer once more is late.
            match receiver.on_packet(&packet, 0x4242, 4_000, &mut pending, &others) {
                Some(Received::Late { target: late, outcome }) => {
                    assert_eq!(late, target);
                    assert_eq!(outcome.probe_id, probe.probe_id);
                    assert_eq!(outcome.flow_id, probe.flow_id);
                    assert_eq!(outcome.rtt_us, 0);
                }
                other => panic!("{:?}", other),
            }
        }
        assert_eq!(pending.len(), 0);
    }
}

#[test]
fn foreign_packets_come_to_nothing() {
    let src = Ipv4Addr::new(10, 0, 0, 1);
    let dst = Ipv4Addr::new(10, 9, 9, 9);
    let target = IpAddr::V4(dst);
    let receiver = test_receiver(1);
    let mut pending = PendingMap::new();
    let round = plan_round(&Config::default(), Carrier::Echo, false, 0, 1);
    register_probe(&mut pending, &round[0], target, 0);
    let sent = probe_packet_v4(Carrier::Echo, 0x4242, &round[0], 99, src, dst, 0, false);
    let packet = RecvPacket {
        data: time_exceeded_v4(&sent),
        source: target,
        is_dgram: false,
        response_ttl: None,
    };
    assert!(receiver.on_packet(&packet, 0x1111, 5, &mut pending, &vec![target]).is_none());
    assert_eq!(pending.len(), 1);
}

#[test]
fn ipv6_probes_find_their_answers() {
    let a = Ipv6Addr::new(0x2001, 0xdb8, 0, 0, 0, 0, 0, 1);
    let b = Ipv6Addr::new(0x2001, 0xdb8, 0, 0, 0, 0, 0, 2);
    let (src, target) = (IpAddr::V6(a), IpAddr::V6(b));
    let router = IpAddr::V6(Ipv6Addr::new(0x2001, 0xdb8, 0, 0, 0, 0, 0, 0xfe));
    for (carrier, protocol) in [(Carrier::Echo, 58), (Carrier::Udp, 17), (Carrier::Tcp, 6)] {
        let flows = if carrier == Carrier::Echo { 1 } else { 2 };
        let config = Config {
            flows,
            ..Config::default()
        };
        let receiver = test_receiver(flows);
        let mut pending = PendingMap::new();
        for probe in &plan_round(&config, carrier, true, 3, 2) {
            register_probe(&mut pending, probe, target, 10);
            let mut data = vec![3u8, 0, 0, 0, 0, 0, 0, 0];
            data.extend_from_slice(&[0x60, 0, 0, 0, 0, 0, protocol, 1]);
            for ip in [a, b] {
                for segment in ip.segments() {
                    data.extend_from_slice(&segment.to_be_bytes());
                }
            }
            if carrier == Carrier::Udp {
                data.extend_from_slice(&probe.src_port.unwrap().to_be_bytes());
                data.extend_from_slice(&[0; 6]);
            }
            data.extend_from_slice(&probe_message_v6(carrier, 0x77, probe, 5, src, target));
            let packet = RecvPacket {
                data,
                source: router,
                is_dgram: false,
                response_ttl: None,
            };
            match receiver.on_packet(&packet, 0x77, 30, &mut pending, &vec![target]) {
                Some(Received::Matched(response)) => {
                    assert_eq!(response.probe_id, probe.probe_id);
                    assert_eq!(response.flow_id, probe.flow_id);
                    assert_eq!(response.rtt, 20);
                }
                other => panic!("{:?}", other),
            }
        }
        assert_eq!(pending.len(), 0);
    }
}

#[test]
fn receivers_bind_to_their_interface_unless_told_otherwise() {
    for recv_any in [false, true] {
        let receiver = Receiver::new(ReceiverConfig {
            timeout: 1_000_000_000,
            ipv6: false,
            src_port_base: 50000,
            num_flows: 1,
            interface: Some(InterfaceInfo {
                name: "eth0".to_string(),
                ipv4: None,
                ipv6: None,
                gateway_ipv4: None,
                gateway_ipv6: None,
            }),
            recv_any,
        });
        let bound = receiver.bound_interface().map(|info| info.name.as_str());
        assert_eq!(bound, if recv_any { None } else { Some("eth0") });
    }
    assert!(test_receiver(1).bound_interface().is_none());
}

#[test]
fn receivers_end_after_what_is_queued() {
    let mut stage = Stage::Drain;
    let mut seen = Vec::new();
    for (step, cancelled) in [
        (DrainStep::Again, true),
        (DrainStep::Apply, true),
        (DrainStep::Again, false),
        (DrainStep::Again, true),
        (DrainStep::Apply, true),
        (DrainStep::Again, true),
        (DrainStep::Again, true),
        (DrainStep::Again, true),
    ] {
        stage = next_stage(stage, step, cancelled);
        seen.push(stage);
    }
    assert_eq!(
        seen,
        vec![
            Stage::Drain,
            Stage::Apply,
            Stage::Expire,
            Stage::Drain,
            Stage::Apply,
            Stage::Flush,
            Stage::End,
            Stage::End,
        ]
    );
    assert_eq!(next_stage(Stage::Drain, DrainStep::Stop, false), Stage::Fail);
}
