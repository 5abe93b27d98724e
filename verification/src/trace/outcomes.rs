//! What the steps of a trace must come to, whatever is sent and received.

use crate::addr::{IpAddr, Ipv4Addr};
use crate::config::Config;
use crate::probe::correlate::ParsedResponse;
use crate::state::{IcmpResponseType, PmtudState, ProbeId, ProbeOutcome};
use crate::trace::engine::{
    check_pmtud_ready, choose_carrier, flow_count, forget_pmtud, forget_probe, get_pmtud_probe_size,
    handle_pmtud_df_error, ipv4_bind_src, ipv4_src, ipv4_tos, is_polled_reply, payload_size,
    plan_polled_reply, plan_round, planned, planned_round, poll_goes_on, ports_fit, probe_packet_v4,
    register_pmtud, register_probe, v6_pair, Carrier, Chosen, PlannedProbe, PmtudReady, PolledPlan,
    Rounds, Tick,
};
use crate::config::ProbeProtocol;
use crate::trace::pending::{PendingEntry, PendingKey, PendingMap, PendingProbe};
use crate::trace::receiver::{
    flush_pending_as_timeouts, flushed, nearer_ttl, next_stage, plan_pmtud, plan_timeout,
    receiver_config, BatchedResponse, DrainStep, FlushedTimeout, PmtudUpdate, Received, Receiver,
    ReceiverConfig, RecvEvent, RecvPacket, ResponsePlan, Stage, TimeoutPlan,
};
use vstd::prelude::*;

verus! {

/// What an answer is found to say of the target: that it was reached, and at
/// what distance, is learned from its own echo replies and from nothing else.
/// The distance is the least TTL at which it has answered.
pub proof fn law_reached_only_by_the_target(
    receiver: &Receiver,
    resp: &BatchedResponse,
    dest_ttl: Option<u8>,
    pmtud: Option<PmtudState>,
    plan: ResponsePlan,
)
    requires
        call_ensures(Receiver::plan_response, (receiver, resp, dest_ttl, pmtud), plan),
    ensures
        (resp.response_type is EchoReply) && resp.responder == resp.target ==> plan.reached && (
        plan.dest_ttl matches Some(d) && d <= resp.probe_id.ttl && (dest_ttl matches Some(known)
            ==> d <= known) && (d == resp.probe_id.ttl || dest_ttl == Some(d))),
        !((resp.response_type is EchoReply) && resp.responder == resp.target) ==> !plan.reached
            && plan.dest_ttl == dest_ttl,
{
}

/// A normal answer is recorded at its hop for its own flow, with the ports
/// that were sent and came back. Flaps and the TTL of the answer are looked
/// at only where there is a single flow, and the quoted TTL only where a TTL
/// ran out in transit. For replay it counts as a reply of its sender.
pub proof fn law_normal_answer_recorded(
    receiver: &Receiver,
    resp: &BatchedResponse,
    dest_ttl: Option<u8>,
    pmtud: Option<PmtudState>,
    plan: ResponsePlan,
)
    requires
        call_ensures(Receiver::plan_response, (receiver, resp, dest_ttl, pmtud), plan),
        resp.packet_size is None,
    ensures
        plan.hop matches Some(update) && {
            &&& update.flow_id == resp.flow_id
            &&& update.sent_port == resp.original_src_port
            &&& update.returned_port == resp.returned_src_port
            &&& update.ipv6 == receiver.config.ipv6
            &&& update.detect_flaps <==> receiver.config.num_flows == 1
            &&& receiver.config.num_flows == 1 ==> update.response_ttl == resp.response_ttl
            &&& receiver.config.num_flows != 1 ==> update.response_ttl is None
            &&& resp.response_type == IcmpResponseType::TimeExceeded(0) ==> update.manipulated_ttl
                == resp.quoted_ttl
            &&& resp.response_type != IcmpResponseType::TimeExceeded(0)
                ==> update.manipulated_ttl is None
        },
        plan.outcome matches Some(ProbeOutcome::Reply { addr, rtt_us }) && addr == resp.responder
            && rtt_us * 1000 <= resp.rtt < rtt_us * 1000 + 1000,
        plan.pmtud == PmtudUpdate::Keep,
{
}

/// An answer to a path-MTU probe is recorded at no hop. Of the size being
/// tried, any answer but one that says that the packet was too large shows
/// that the size passed; one that does, that it did not, with the MTU where
/// one was reported. Of any other size it means nothing.
pub proof fn law_sized_answer_serves_the_search(
    packet_size: u16,
    response_type: IcmpResponseType,
    reported: Option<u16>,
    state: PmtudState,
    r: PmtudUpdate,
)
    requires
        call_ensures(plan_pmtud, (Some(packet_size), response_type, reported, Some(state)), r),
    ensures
        r == PmtudUpdate::Keep <==> !((state.phase is Searching) && state.current_size
            == packet_size),
        r == PmtudUpdate::Success ==> response_type != IcmpResponseType::DestUnreachable(4)
            && !(response_type is PacketTooBig),
        r == PmtudUpdate::Failure ==> reported is None,
        r matches PmtudUpdate::FragNeeded(mtu) ==> reported == Some(mtu) && (response_type
            == IcmpResponseType::DestUnreachable(4) || (response_type is PacketTooBig)),
        r == PmtudUpdate::Failure ==> response_type == IcmpResponseType::DestUnreachable(4) || (
        response_type is PacketTooBig),
{
}

/// Without a search, or for a normal probe, an answer means nothing to the
/// search.
pub proof fn law_normal_answer_leaves_the_search(
    packet_size: Option<u16>,
    response_type: IcmpResponseType,
    reported: Option<u16>,
    pmtud: Option<PmtudState>,
    r: PmtudUpdate,
)
    requires
        call_ensures(plan_pmtud, (packet_size, response_type, reported, pmtud), r),
        packet_size is None || pmtud is None,
    ensures
        r == PmtudUpdate::Keep,
{
}

/// The plan of an answer uses the search as [`plan_pmtud`] decides.
pub proof fn law_answer_plan_and_search_agree(
    receiver: &Receiver,
    resp: &BatchedResponse,
    dest_ttl: Option<u8>,
    pmtud: Option<PmtudState>,
    plan: ResponsePlan,
    r: PmtudUpdate,
)
    requires
        call_ensures(Receiver::plan_response, (receiver, resp, dest_ttl, pmtud), plan),
        call_ensures(
            plan_pmtud,
            (resp.packet_size, resp.response_type, resp.reported_mtu, pmtud),
            r,
        ),
    ensures
        plan.pmtud == r,
        resp.packet_size is Some ==> plan.hop is None && plan.outcome is None,
{
}

/// Reading the send socket and the receiver come to the same: an echo reply
/// tells the same of the target and of the search, whichever reads it.
pub proof fn law_polled_and_received_agree(
    receiver: &Receiver,
    parsed: &ParsedResponse,
    probe: &PendingProbe,
    resp: &BatchedResponse,
    target: IpAddr,
    response_ttl: Option<u8>,
    now: u64,
    dest_ttl: Option<u8>,
    pmtud: Option<PmtudState>,
    polled: PolledPlan,
    plan: ResponsePlan,
)
    requires
        call_ensures(
            plan_polled_reply,
            (parsed, probe, target, response_ttl, now, dest_ttl, pmtud),
            polled,
        ),
        call_ensures(Receiver::plan_response, (receiver, resp, dest_ttl, pmtud), plan),
        receiver.config.num_flows == 1,
        receiver.config.ipv6,
        resp.response_type is EchoReply,
        resp.responder == parsed.responder,
        resp.target == target,
        resp.probe_id == parsed.probe_id,
        resp.packet_size == probe.packet_size,
        resp.flow_id == 0,
        resp.original_src_port is None,
        resp.returned_src_port is None,
        resp.response_ttl == response_ttl,
    ensures
        polled.reached == plan.reached,
        polled.dest_ttl == plan.dest_ttl,
        polled.pmtud == plan.pmtud,
        polled.hop == plan.hop,
{
}

/// A reply read from the send socket took as long as it is since its probe
/// was sent; only echo replies are read there.
pub proof fn law_polled_reply_timed(
    parsed: &ParsedResponse,
    probe: &PendingProbe,
    target: IpAddr,
    response_ttl: Option<u8>,
    now: u64,
    dest_ttl: Option<u8>,
    pmtud: Option<PmtudState>,
    polled: PolledPlan,
    taken: bool,
)
    requires
        call_ensures(
            plan_polled_reply,
            (parsed, probe, target, response_ttl, now, dest_ttl, pmtud),
            polled,
        ),
        call_ensures(is_polled_reply, (parsed,), taken),
        probe.sent_at <= now,
    ensures
        probe.sent_at + polled.rtt == now,
        taken <==> (parsed.response_type is EchoReply),
        polled.reached <==> parsed.responder == target,
{
}

/// A timed-out normal probe is a timeout of its hop and flow, and of nothing
/// else. A timed-out path-MTU probe is a failure of the size being tried.
pub proof fn law_timeout_counts_once(
    probe: &PendingProbe,
    pmtud: Option<PmtudState>,
    plan: TimeoutPlan,
)
    requires
        call_ensures(plan_timeout, (probe, pmtud), plan),
    ensures
        plan.flow_id == probe.flow_id,
        probe.packet_size is None ==> plan.hop_timeout && plan.outcome == Some(
            ProbeOutcome::Timeout,
        ) && plan.pmtud == PmtudUpdate::Keep,
        probe.packet_size is Some ==> !plan.hop_timeout && plan.outcome is None,
        plan.pmtud == PmtudUpdate::Failure <==> (pmtud matches Some(state) && (
        state.phase is Searching) && probe.packet_size == Some(state.current_size)),
        plan.pmtud == PmtudUpdate::Failure || plan.pmtud == PmtudUpdate::Keep,
{
}

/// A probe that was sent no longer ago than the timeout stays outstanding,
/// any other is taken, and none is taken twice or lost.
pub proof fn law_timeouts_taken(
    receiver: &Receiver,
    pending: &mut PendingMap,
    now: u64,
    taken: Vec<PendingEntry>,
    key: PendingKey,
)
    requires
        call_ensures(Receiver::take_timed_out, (receiver, pending, now), taken),
        old(pending)@.contains_key(key),
    ensures
        old(pending)@[key].sent_at + receiver.config.timeout >= now ==> final(pending)@.contains_key(
            key,
        ) && final(pending)@[key] == old(pending)@[key] && forall|i: int|
            0 <= i < taken@.len() ==> (#[trigger] taken@[i]).key != key,
        old(pending)@[key].sent_at + receiver.config.timeout < now ==> !final(pending)@.contains_key(key) && exists|i: int| 0 <= i < taken@.len() && (#[trigger] taken@[i]).key
            == key,
{
    let late = crate::trace::pending::overdue(old(pending)@[key], now, receiver.config.timeout);
    assert(crate::trace::pending::has_key(taken@, key) <==> late);
    assert(final(pending)@.contains_key(key) <==> !late);
}

/// A probe that is registered when it is sent, and answered later while it is
/// outstanding, is found by its answer: the round-trip time is the time
/// between, the target and the flow are its own, and it is no longer
/// outstanding afterwards.
pub proof fn law_answer_timed_from_sending(
    sending: &mut PendingMap,
    probe: &PlannedProbe,
    target: IpAddr,
    sent_at: u64,
    receiver: &Receiver,
    parsed: ParsedResponse,
    response_ttl: Option<u8>,
    now: u64,
    pending: &mut PendingMap,
    targets: &Vec<IpAddr>,
    r: Received,
)
    requires
        call_ensures(register_probe, (sending, probe, target, sent_at), ()),
        old(pending)@ == final(sending)@,
        call_ensures(
            Receiver::receive,
            (receiver, parsed, response_ttl, now, pending, targets),
            r,
        ),
        parsed.probe_id == probe.probe_id,
        parsed.original_dest == Some(target),
        parsed.src_port == probe.src_port,
        probe.src_port matches Some(port) ==> port == receiver.config.src_port_base + probe.flow_id
            && probe.flow_id < receiver.config.num_flows,
        probe.src_port is None ==> probe.flow_id == 0 && receiver.config.num_flows == 1,
        sent_at <= now,
    ensures
        r matches Received::Matched(resp) && {
            &&& sent_at + resp.rtt == now
            &&& resp.target == target
            &&& resp.flow_id == probe.flow_id
            &&& resp.probe_id == probe.probe_id
            &&& resp.responder == parsed.responder
            &&& resp.response_type == parsed.response_type
            &&& resp.packet_size is None
            &&& resp.original_src_port == probe.src_port
            &&& resp.returned_src_port == parsed.src_port
            &&& resp.reported_mtu == parsed.mtu
            &&& resp.quoted_ttl == parsed.quoted_ttl
            &&& resp.response_ttl == response_ttl
            &&& crate::probe::quoted::labels_view(resp.mpls_labels)
                == crate::probe::quoted::labels_view(parsed.mpls_labels)
        },
        !final(pending)@.contains_key(
            (PendingKey {
                probe_id: probe.probe_id,
                flow_id: probe.flow_id,
                target,
                is_pmtud: false,
            }),
        ),
{
    let key = PendingKey {
        probe_id: probe.probe_id,
        flow_id: probe.flow_id,
        target,
        is_pmtud: false,
    };
    assert(old(pending)@.contains_key(key));
    let all = crate::trace::receiver::concerned(parsed.original_dest, targets@);
    assert(all[0] == target);
}

/// An answer that no outstanding probe awaits changes nothing that is
/// outstanding. It is late, at the target that it names, and its time is not
/// known.
pub proof fn law_unawaited_answer_is_late(
    receiver: &Receiver,
    parsed: ParsedResponse,
    response_ttl: Option<u8>,
    now: u64,
    pending: &mut PendingMap,
    targets: &Vec<IpAddr>,
    r: Received,
)
    requires
        call_ensures(
            Receiver::receive,
            (receiver, parsed, response_ttl, now, pending, targets),
            r,
        ),
        forall|key: PendingKey| #[trigger] old(pending)@.contains_key(key) ==> key.probe_id
            != parsed.probe_id,
    ensures
        final(pending)@ == old(pending)@,
        match parsed.original_dest {
            Some(dest) => r matches Received::Late { target, outcome } && target == dest
                && outcome.probe_id == parsed.probe_id && outcome.addr == parsed.responder
                && outcome.rtt_us == 0,
            None => r is Unmatched,
        },
{
    lemma_none_among(
        old(pending)@,
        parsed.probe_id,
        crate::trace::receiver::concerned(parsed.original_dest, targets@),
        crate::trace::receiver::flow_hint(
            receiver.config.src_port_base,
            receiver.config.num_flows,
            parsed.src_port,
        ),
    );
}

/// Nothing is found for an identity that nothing outstanding has.
proof fn lemma_none_among(
    map: Map<PendingKey, PendingProbe>,
    probe_id: ProbeId,
    targets: Seq<IpAddr>,
    hint: Option<u8>,
)
    requires
        forall|key: PendingKey| #[trigger] map.contains_key(key) ==> key.probe_id != probe_id,
    ensures
        crate::trace::receiver::answered_among(map, probe_id, targets, hint) is None,
    decreases targets.len(),
{
    if targets.len() > 0 {
        lemma_none_among(map, probe_id, targets.skip(1), hint);
        crate::trace::receiver::law_answer_taken_once(map, probe_id, targets[0], hint);
    }
}

/// A pause stops everything; else a trace ends once it has done its rounds,
/// and probes up to the target once its distance is known, before that up to
/// the largest TTL.
pub proof fn law_rounds_stop_at_the_target(
    rounds: &Rounds,
    paused: bool,
    count: Option<u64>,
    dest_ttl: Option<u8>,
    max_ttl: u8,
    r: Tick,
)
    requires
        call_ensures(Rounds::tick, (rounds, paused, count, dest_ttl, max_ttl), r),
    ensures
        r == Tick::Wait <==> paused,
        r == Tick::Finish <==> !paused && (count matches Some(n) && n <= rounds.completed),
        r matches Tick::Probe(ttl) ==> (dest_ttl matches Some(known) ==> ttl == known) && (
        dest_ttl is None ==> ttl == max_ttl),
{
}

/// Rounds are counted one by one, and their numbers follow each other and
/// start again after the last.
pub proof fn law_rounds_are_numbered(rounds: &mut Rounds)
    requires
        call_ensures(Rounds::round_done, (rounds,), ()),
    ensures
        final(rounds).completed == old(rounds).completed + 1,
        final(rounds).pmtud_seq == old(rounds).pmtud_seq,
        old(rounds).seq < 255 ==> final(rounds).seq == old(rounds).seq + 1,
        old(rounds).seq == 255 ==> final(rounds).seq == 0,
{
}

/// Path-MTU probes have numbers of their own, that follow each other.
pub proof fn law_sized_probes_are_numbered(rounds: &mut Rounds)
    requires
        call_ensures(Rounds::pmtud_sent, (rounds,), ()),
    ensures
        final(rounds).seq == old(rounds).seq,
        final(rounds).completed == old(rounds).completed,
        old(rounds).pmtud_seq < 255 ==> final(rounds).pmtud_seq == old(rounds).pmtud_seq + 1,
        old(rounds).pmtud_seq == 255 ==> final(rounds).pmtud_seq == 0,
{
}

/// A round has a probe for every flow and every TTL from 1 on, each once:
/// flow by flow, and within a flow the TTLs in order. The source port tells
/// the flow; the destination port is the same throughout if it is fixed, and
/// else grows with the TTL.
pub proof fn law_round_in_order(
    config: &Config,
    carrier: Carrier,
    ipv6: bool,
    seq: u8,
    max_ttl: u8,
    round: Vec<PlannedProbe>,
    i: int,
)
    requires
        call_ensures(plan_round, (config, carrier, ipv6, seq, max_ttl), round),
        crate::trace::engine::ports_in_range(*config, carrier, max_ttl),
        0 <= i < round@.len(),
    ensures
        carrier is Echo ==> round@.len() == max_ttl,
        !(carrier is Echo) ==> round@.len() == config.flows * max_ttl,
        round@[i].flow_id * max_ttl + round@[i].probe_id.ttl == i + 1,
        1 <= round@[i].probe_id.ttl <= max_ttl,
        round@[i].probe_id.seq == seq,
        carrier is Echo ==> round@[i].src_port is None && round@[i].dst_port is None,
        !(carrier is Echo) ==> (round@[i].src_port matches Some(port) && port
            == config.src_port_base + round@[i].flow_id),
        !(carrier is Echo) ==> (round@[i].dst_port matches Some(port) && port == (match config.port {
            Some(given) => given + 0,
            None => if carrier is Tcp {
                80
            } else {
                33434
            },
        }) + (if config.port_fixed {
            0
        } else {
            round@[i].probe_id.ttl + 0
        })),
{
    lemma_place_in_round(
        *config,
        carrier,
        ipv6,
        seq,
        flow_count(carrier, config.flows) as nat,
        max_ttl,
        i,
    );
    assert(1 * max_ttl == max_ttl);
}

/// Where a probe stands in its round.
proof fn lemma_place_in_round(
    config: Config,
    carrier: Carrier,
    ipv6: bool,
    seq: u8,
    flows: nat,
    max_ttl: u8,
    i: int,
)
    requires
        flows <= 255,
        0 <= i < planned_round(config, carrier, ipv6, seq, flows, max_ttl).len(),
    ensures
        planned_round(config, carrier, ipv6, seq, flows, max_ttl).len() == flows * max_ttl,
        ({
            let probe = planned_round(config, carrier, ipv6, seq, flows, max_ttl)[i];
            &&& probe.flow_id < flows
            &&& 1 <= probe.probe_id.ttl <= max_ttl
            &&& probe.flow_id * max_ttl + probe.probe_id.ttl == i + 1
            &&& probe == planned(config, carrier, ipv6, seq, probe.flow_id, probe.probe_id.ttl)
        }),
    decreases flows,
{
    let all = planned_round(config, carrier, ipv6, seq, flows, max_ttl);
    let last = (flows - 1) as nat;
    let before = planned_round(config, carrier, ipv6, seq, last, max_ttl);
    crate::trace::engine::lemma_round_len(config, carrier, ipv6, seq, flows, max_ttl);
    crate::trace::engine::lemma_round_len(config, carrier, ipv6, seq, last, max_ttl);
    if i < before.len() {
        lemma_place_in_round(config, carrier, ipv6, seq, last, max_ttl, i);
        assert(all[i] == before[i]);
    } else {
        let ttl = (i - before.len() + 1) as u8;
        assert(flows * max_ttl == last * max_ttl + max_ttl) by (nonlinear_arith)
            requires
                flows == last + 1,
        ;
        assert(all[i] == planned(config, carrier, ipv6, seq, last as u8, ttl));
    }
}

/// A probe of a configured size is, with its IP header, exactly that many
/// bytes long, as long as the headers fit.
pub proof fn law_packets_have_the_size_asked_for(
    carrier: Carrier,
    size: u16,
    payload: usize,
    identifier: u16,
    probe: &PlannedProbe,
    timestamp: u32,
    src: Ipv4Addr,
    dst: Ipv4Addr,
    tos: u8,
    host_order: bool,
    packet: Vec<u8>,
)
    requires
        call_ensures(payload_size, (carrier, false, Some(size)), payload),
        probe.payload_size == payload,
        payload + 20 <= 65535,
        call_ensures(
            probe_packet_v4,
            (carrier, identifier, probe, timestamp, src, dst, tos, host_order),
            packet,
        ),
        (carrier is Echo) ==> size >= 36,
        (carrier is Udp) ==> size >= 36,
        (carrier is Tcp) ==> size >= 40,
    ensures
        packet@.len() == size,
{
    let transport = crate::trace::engine::probe_transport_v4(
        carrier,
        identifier,
        *probe,
        timestamp,
        src,
        dst,
    );
    crate::probe::laws::lemma_packet_len(
        packet@,
        src,
        dst,
        crate::trace::engine::protocol_v4(carrier),
        probe.probe_id.ttl,
        tos,
        false,
        transport,
        host_order,
    );
}

/// Of an IPv6 probe the payload is what the size leaves behind the IPv6
/// header and the header of the carrier.
pub proof fn law_payload_of_v6_size(carrier: Carrier, size: u16, payload: usize)
    requires
        call_ensures(payload_size, (carrier, true, Some(size)), payload),
        size >= 60,
    ensures
        carrier is Tcp ==> payload + 60 == size,
        !(carrier is Tcp) ==> payload + 48 == size,
{
}

/// The carrier is the one asked for. Left to choose, echo requests are taken
/// if they work, else UDP if that works, else TCP, and a port that was given
/// stays.
pub proof fn law_carrier_as_asked(
    protocol: ProbeProtocol,
    port: Option<u16>,
    echo_works: bool,
    udp_works: bool,
    r: Chosen,
)
    requires
        call_ensures(choose_carrier, (protocol, port, echo_works, udp_works), r),
    ensures
        (protocol is Udp) ==> (r.carrier is Udp) && r.port == port,
        (protocol is Tcp) ==> (r.carrier is Tcp) && r.port == port,
        !(protocol is Udp) && !(protocol is Tcp) && !(protocol is Auto) ==> (r.carrier is Echo)
            && r.port == port,
        (protocol is Auto) ==> ((r.carrier is Echo) <==> echo_works),
        (protocol is Auto) ==> ((r.carrier is Udp) <==> !echo_works && udp_works),
        port is Some ==> r.port == port,
        (protocol is Auto) && port is None ==> {
            &&& (r.carrier is Echo) ==> r.port is None
            &&& (r.carrier is Udp) ==> r.port == Some(33434u16)
            &&& (r.carrier is Tcp) ==> r.port == Some(80u16)
        },
{
}

/// A differentiated-services code point stands in the upper six bits of the
/// byte that IPv4 has for it; the lower two stay clear.
pub proof fn law_code_point_in_upper_bits(dscp: Option<u8>, tos: u8)
    requires
        call_ensures(ipv4_tos, (dscp,), tos),
        dscp matches Some(d) ==> d < 64,
    ensures
        tos % 4 == 0,
        dscp matches Some(d) ==> tos / 4 == d,
        dscp is None ==> tos == 0,
{
}

/// An address to send from that was given is used, if it is of the right
/// family; else the one of the route.
pub proof fn law_source_as_given(
    source_ip: Option<IpAddr>,
    routed: Ipv4Addr,
    r: Result<Ipv4Addr, String>,
    bound: Option<Ipv4Addr>,
)
    requires
        call_ensures(ipv4_src, (source_ip, IpAddr::V4(routed)), r),
        call_ensures(ipv4_bind_src, (source_ip,), bound),
    ensures
        source_ip is None ==> (r matches Ok(a) && a == routed) && bound is None,
        source_ip matches Some(IpAddr::V4(given)) ==> (r matches Ok(a) && a == given) && bound
            == Some(given),
        source_ip matches Some(IpAddr::V6(_)) ==> r is Err && bound is None,
{
}

/// Path-MTU discovery waits until the distance of the target is known, begins
/// then, goes on while it searches, and is over once complete.
pub proof fn law_search_needs_the_distance(
    enabled: bool,
    dest_ttl: Option<u8>,
    pmtud: Option<PmtudState>,
    r: PmtudReady,
    size: Option<u16>,
)
    requires
        call_ensures(check_pmtud_ready, (enabled, dest_ttl, pmtud), r),
        call_ensures(get_pmtud_probe_size, (pmtud,), size),
    ensures
        r matches PmtudReady::Start(ttl) ==> enabled && dest_ttl == Some(ttl) && (pmtud matches Some(
            s,
        ) && (s.phase is WaitingForDestination)),
        r matches PmtudReady::Due(ttl) ==> enabled && dest_ttl == Some(ttl) && (pmtud matches Some(
            s,
        ) && size == Some(s.current_size)),
        enabled && dest_ttl is Some && (pmtud matches Some(s) && !(s.phase is Complete)) ==> r
            != PmtudReady::NotDue,
        size is Some <==> (pmtud matches Some(s) && (s.phase is Searching)),
        size matches Some(n) ==> (pmtud matches Some(s) && s.current_size == n),
{
}

/// Where the system cannot keep packets whole, the search ends without a
/// result; any other error leaves it as it was.
pub proof fn law_search_ends_without_support(pmtud: &mut Option<PmtudState>, unsupported: bool)
    requires
        call_ensures(handle_pmtud_df_error, (pmtud, unsupported), ()),
    ensures
        !unsupported ==> *final(pmtud) == *old(pmtud),
        unsupported && *old(pmtud) is Some ==> (*final(pmtud) matches Some(s) && (
        s.phase is Complete) && s.discovered_mtu is None),
        *old(pmtud) is None ==> *final(pmtud) is None,
{
}

/// The two addresses of an IPv6 probe are known only if both are of IPv6.
pub proof fn law_pair_of_v6(src: IpAddr, target: IpAddr, r: Option<(crate::addr::Ipv6Addr, crate::addr::Ipv6Addr)>)
    requires
        call_ensures(v6_pair, (src, target), r),
    ensures
        r matches Some(pair) ==> src == IpAddr::V6(pair.0) && target == IpAddr::V6(pair.1),
        r is None ==> (src is V4) || (target is V4),
{
}

/// What is registered for a normal probe is forgotten again by its own
/// forgetting, and by it alone.
pub proof fn law_forgetting_undoes_registering(
    first: &mut PendingMap,
    second: &mut PendingMap,
    probe: &PlannedProbe,
    target: IpAddr,
    sent_at: u64,
)
    requires
        call_ensures(register_probe, (first, probe, target, sent_at), ()),
        call_ensures(forget_probe, (second, probe, target), ()),
        old(second)@ == final(first)@,
        !old(first)@.contains_key(
            (PendingKey {
                probe_id: probe.probe_id,
                flow_id: probe.flow_id,
                target,
                is_pmtud: false,
            }),
        ),
    ensures
        final(second)@ == old(first)@,
        final(first)@.dom() == old(first)@.dom().insert(
            (PendingKey {
                probe_id: probe.probe_id,
                flow_id: probe.flow_id,
                target,
                is_pmtud: false,
            }),
        ),
{
    assert(final(second)@ =~= old(first)@);
    assert(final(first)@.dom() =~= old(first)@.dom().insert(
        (PendingKey { probe_id: probe.probe_id, flow_id: probe.flow_id, target, is_pmtud: false }),
    ));
}

/// What is registered for a path-MTU probe is its size, apart from normal
/// probes, and its own forgetting undoes it.
pub proof fn law_forgetting_undoes_registering_sized(
    first: &mut PendingMap,
    second: &mut PendingMap,
    dest_ttl: u8,
    seq: u8,
    target: IpAddr,
    size: u16,
    sent_at: u64,
)
    requires
        call_ensures(register_pmtud, (first, dest_ttl, seq, target, size, sent_at), ()),
        call_ensures(forget_pmtud, (second, dest_ttl, seq, target), ()),
        old(second)@ == final(first)@,
    ensures
        ({
            let key = PendingKey {
                probe_id: ProbeId { ttl: dest_ttl, seq },
                flow_id: 0,
                target,
                is_pmtud: true,
            };
            &&& final(first)@.contains_key(key)
            &&& final(first)@[key].packet_size == Some(size)
            &&& final(first)@[key].sent_at == sent_at
            &&& final(first)@[key].target == target
            &&& !final(second)@.contains_key(key)
            &&& !old(first)@.contains_key(key) ==> final(second)@ == old(first)@
        }),
{
    assert(!old(first)@.contains_key(
        (PendingKey {
            probe_id: ProbeId { ttl: dest_ttl, seq },
            flow_id: 0,
            target,
            is_pmtud: true,
        }),
    ) ==> final(second)@ =~= old(first)@);
}

/// A source port tells the flow by its distance from the first, if it is one
/// of ours. Without a port there is a flow to tell only if there is just one.
pub proof fn law_port_tells_the_flow(receiver: &Receiver, port: Option<u16>, r: Option<u8>)
    requires
        call_ensures(Receiver::derive_flow_hint, (receiver, port), r),
    ensures
        port matches Some(p) ==> match r {
            Some(flow) => receiver.config.src_port_base + flow == p && flow
                < receiver.config.num_flows,
            None => p < receiver.config.src_port_base || p >= receiver.config.src_port_base
                + receiver.config.num_flows,
        },
        port is None ==> (r == Some(0u8) <==> receiver.config.num_flows == 1) && (
        receiver.config.num_flows != 1 ==> r is None),
{
}

/// Errors stop the receiver only when fifty come in a row; a packet, or that
/// there is none, makes the count start again. After a hundred packets at the
/// latest what was received is entered.
pub proof fn law_errors_in_a_row_stop(
    receiver: &mut Receiver,
    batch_count: &mut usize,
    event: RecvEvent,
    r: DrainStep,
)
    requires
        call_ensures(Receiver::drain_step, (receiver, batch_count, event), r),
    ensures
        !(event is Failed) ==> final(receiver).consecutive_errors == 0 && !(r is Stop),
        (event is Failed) ==> final(receiver).consecutive_errors == old(receiver).consecutive_errors + 1,
        (r is Stop) <==> (event is Failed) && old(receiver).consecutive_errors >= 49,
        (r is Again) <==> (event is Packet) && *old(batch_count) < 99,
        *final(batch_count) == *old(batch_count) + (if event is Packet {
            1int
        } else {
            0
        }),
        final(receiver).config == old(receiver).config,
{
}

/// The receiver of a family has the timeout, ports and flows of the trace.
pub proof fn law_receiver_configured(
    config: &Config,
    ipv6: bool,
    num_flows: u8,
    interface: &Option<crate::probe::interface::InterfaceInfo>,
    r: ReceiverConfig,
)
    requires
        call_ensures(receiver_config, (config, ipv6, num_flows, interface), r),
    ensures
        r.timeout == config.timeout,
        r.ipv6 == ipv6,
        r.num_flows == num_flows,
        r.src_port_base == config.src_port_base,
        r.recv_any == config.recv_any,
        r.interface is Some <==> *interface is Some,
{
}

/// The send socket is read again only while packets come, nothing is
/// cancelled and fewer than 256 have been read.
pub proof fn law_polling_is_bounded(
    last: Option<RecvEvent>,
    drained: usize,
    cancelled: bool,
    r: bool,
)
    requires
        call_ensures(poll_goes_on, (last, drained, cancelled), r),
    ensures
        r ==> !cancelled && drained < 256 && (last matches Some(event) ==> (event is Packet)),
        !r ==> cancelled || drained >= 256 || last == Some(RecvEvent::Drained) || last == Some(
            RecvEvent::Failed,
        ),
{
}

/// The nearer of two distances is kept.
pub proof fn law_nearer_is_least(dest_ttl: Option<u8>, ttl: u8, r: Option<u8>)
    requires
        call_ensures(nearer_ttl, (dest_ttl, ttl), r),
    ensures
        r matches Some(d) && d <= ttl && (d == ttl || dest_ttl == Some(d)) && (dest_ttl matches Some(
            known,
        ) ==> d <= known),
{
}

/// What is still outstanding at the end counts as timed out, once for each
/// normal probe and not at all for path-MTU probes, and nothing is left.
pub proof fn law_rest_flushed(pending: &mut PendingMap, r: Vec<FlushedTimeout>, key: PendingKey)
    requires
        call_ensures(flush_pending_as_timeouts, (pending,), r),
    ensures
        !final(pending)@.contains_key(key),
        old(pending)@.contains_key(key) && !key.is_pmtud ==> exists|i: int|
            0 <= i < r@.len() && (#[trigger] r@[i]).target == key.target && r@[i].ttl
                == key.probe_id.ttl && r@[i].flow_id == old(pending)@[key].flow_id,
        (forall|k: PendingKey| #[trigger] old(pending)@.contains_key(k) ==> k.is_pmtud) ==> r@.len()
            == 0,
{
    let entries = choose|entries: Seq<PendingEntry>|
        crate::trace::pending::distinct_keys(entries) && crate::trace::pending::as_map(entries)
            == old(pending)@ && r@ == #[trigger] flushed(entries);
    if old(pending)@.contains_key(key) && !key.is_pmtud {
        assert(crate::trace::pending::has_key(entries, key));
        let i = choose|i: int| 0 <= i < entries.len() && (#[trigger] entries[i]).key == key;
        assert(old(pending)@[key] == entries[i].probe) by {
            assert(crate::trace::pending::as_map(entries)[key] == crate::trace::pending::value_of(
                entries,
                key,
            ));
            let j = choose|j: int| 0 <= j < entries.len() && (#[trigger] entries[j]).key == key;
            if i < j {
                assert(entries[i].key != entries[j].key);
            } else if j < i {
                assert(entries[j].key != entries[i].key);
            }
        }
        lemma_flushed(entries, i);
    }
    if forall|k: PendingKey| #[trigger] old(pending)@.contains_key(k) ==> k.is_pmtud {
        assert forall|i: int| 0 <= i < entries.len() implies (#[trigger] entries[i]).key.is_pmtud by {
            assert(crate::trace::pending::has_key(entries, entries[i].key));
            assert(crate::trace::pending::as_map(entries).contains_key(entries[i].key));
        }
        lemma_none_flushed(entries);
    }
}

/// A normal probe is among the timeouts.
proof fn lemma_flushed(entries: Seq<PendingEntry>, i: int)
    requires
        0 <= i < entries.len(),
        !entries[i].key.is_pmtud,
    ensures
        exists|k: int|
            0 <= k < flushed(entries).len() && (#[trigger] flushed(entries)[k]).target
                == entries[i].key.target && flushed(entries)[k].ttl == entries[i].key.probe_id.ttl
                && flushed(entries)[k].flow_id == entries[i].probe.flow_id,
    decreases entries.len(),
{
    let before = flushed(entries.drop_last());
    let all = flushed(entries);
    if i == entries.len() - 1 {
        assert(all[before.len() as int].target == entries[i].key.target);
    } else {
        assert(entries.drop_last()[i] == entries[i]);
        lemma_flushed(entries.drop_last(), i);
        let k = choose|k: int|
            0 <= k < before.len() && (#[trigger] before[k]).target == entries[i].key.target
                && before[k].ttl == entries[i].key.probe_id.ttl && before[k].flow_id
                == entries[i].probe.flow_id;
        assert(all[k] == before[k]);
    }
}

/// Path-MTU probes are not among the timeouts.
proof fn lemma_none_flushed(entries: Seq<PendingEntry>)
    requires
        forall|i: int| 0 <= i < entries.len() ==> (#[trigger] entries[i]).key.is_pmtud,
    ensures
        flushed(entries).len() == 0,
    decreases entries.len(),
{
    if entries.len() > 0 {
        let front = entries.drop_last();
        assert(entries[entries.len() - 1].key.is_pmtud);
        assert forall|i: int| 0 <= i < front.len() implies (#[trigger] front[i]).key.is_pmtud by {
            assert(front[i] == entries[i]);
        }
        lemma_none_flushed(front);
    }
}

/// The receiver drains until told otherwise, enters what it has, looks after
/// timeouts, and begins again; once cancelled it counts what is left and
/// ends.
pub proof fn law_receiver_goes_round(step: DrainStep, cancelled: bool, a: Stage, b: Stage, c: Stage, d: Stage)
    requires
        call_ensures(next_stage, (Stage::Drain, step, cancelled), a),
        call_ensures(next_stage, (Stage::Apply, step, cancelled), b),
        call_ensures(next_stage, (Stage::Expire, step, cancelled), c),
        call_ensures(next_stage, (Stage::Flush, step, cancelled), d),
    ensures
        (a is Drain) <==> (step is Again),
        (a is Apply) <==> (step is Apply),
        (a is Fail) <==> (step is Stop),
        (b is Flush) <==> cancelled,
        (b is Expire) <==> !cancelled,
        c is Drain,
        d is End,
{
}

/// The socket is bound to the interface unless answers are to be received
/// from any.
pub proof fn law_bound_unless_any(receiver: &Receiver, r: Option<&crate::probe::interface::InterfaceInfo>)
    requires
        call_ensures(Receiver::bound_interface, (receiver,), r),
    ensures
        receiver.config.recv_any ==> r is None,
        !receiver.config.recv_any ==> (match receiver.config.interface {
            Some(info) => r matches Some(given) && *given == info,
            None => r is None,
        }),
{
}

/// An answer with a known flow takes the normal probe of that flow before the
/// path-MTU probe, and no probe of another flow or target.
pub proof fn law_flow_takes_its_probe(
    pending: &mut PendingMap,
    probe_id: ProbeId,
    target: IpAddr,
    flow: u8,
    r: Option<PendingProbe>,
)
    requires
        call_ensures(
            Receiver::remove_pending_by_flow_hint,
            (pending, probe_id, target, Some(flow)),
            r,
        ),
    ensures
        ({
            let normal = PendingKey { probe_id, flow_id: flow, target, is_pmtud: false };
            let sized = PendingKey { probe_id, flow_id: flow, target, is_pmtud: true };
            let before = old(pending)@;
            &&& before.contains_key(normal) ==> r == Some(before[normal]) && final(pending)@
                == before.remove(normal)
            &&& !before.contains_key(normal) && before.contains_key(sized) ==> r == Some(
                before[sized],
            ) && final(pending)@ == before.remove(sized)
            &&& !before.contains_key(normal) && !before.contains_key(sized) ==> r is None
                && final(pending)@ == before
        }),
{
}

/// Bytes that answer no probe of ours leave everything as it was; others come
/// to what their answer comes to.
pub proof fn law_packets_come_to_answers(
    receiver: &Receiver,
    packet: &RecvPacket,
    identifier: u16,
    now: u64,
    pending: &mut PendingMap,
    targets: &Vec<IpAddr>,
    r: Option<Received>,
    parsed: Option<ParsedResponse>,
    bytes: &[u8],
)
    requires
        call_ensures(Receiver::on_packet, (receiver, packet, identifier, now, pending, targets), r),
        bytes@ == packet.data@,
        call_ensures(
            crate::probe::correlate::parse_icmp_response,
            (bytes, packet.source, identifier, packet.is_dgram),
            parsed,
        ),
    ensures
        r is Some <==> parsed is Some,
        parsed is None ==> final(pending)@ == old(pending)@,
        r matches Some(Received::Matched(resp)) ==> (parsed matches Some(p) && resp.responder
            == p.responder && resp.probe_id == p.probe_id && resp.response_type == p.response_type
            && resp.response_ttl == packet.response_ttl),
        r matches Some(Received::Late { target, outcome }) ==> (parsed matches Some(p)
            && p.original_dest == Some(target) && outcome.addr == p.responder && final(pending)@
            == old(pending)@),
{
    if let Some(p) = parsed {
        assert(crate::probe::correlate::response_view(parsed) == Some(p@));
    }
}

/// The ports of a round fit exactly if every port that is sent from or to is
/// one: an echo has none.
pub proof fn law_ports_that_fit(config: &Config, carrier: Carrier, max_ttl: u8, r: bool)
    requires
        call_ensures(crate::trace::engine::ports_fit, (config, carrier, max_ttl), r),
        config.flows > 0,
        !config.port_fixed,
    ensures
        (carrier is Echo) ==> r,
        (carrier is Udp) ==> (config.port matches Some(port) ==> (r <==> config.src_port_base
            + config.flows <= 65536 && port + max_ttl <= 65535)),
        (carrier is Tcp) ==> (config.port matches Some(port) ==> (r <==> config.src_port_base
            + config.flows <= 65536 && port + max_ttl <= 65535)),
{
}

} // verus!
