//! Metrics in the Prometheus exposition format, and the two pages that serve
//! them.

use crate::fields::{nth_word, word};
use crate::lookup::display::{sanitize_display, sanitized};
use crate::session::{Hop, Session};
use crate::text::{
    byte_len, chars_of, copy_of, decimal, decimal_string, lossy_text, opt_text, push_decimal,
    push_text, replace_char, replaced, same_text, string_of, text_bytes, utf8_lossy,
};
use vstd::prelude::*;

verus! {

/// What is measured.
#[derive(Clone, Copy, Debug, PartialEq, Eq, Structural)]
pub enum Metric {
    ProbesSent,
    Responses,
    Timeouts,
    LossRatio,
    RttAvg,
    RttMin,
    RttMax,
    RttStddev,
    Responders,
    Info,
    Reachable,
    PathHops,
    TargetProbes,
}

impl Metric {
    /// The name of a metric.
    pub open spec fn name_text(self) -> Seq<char> {
        match self {
            Metric::ProbesSent => "ttl_probes_sent_total"@,
            Metric::Responses => "ttl_responses_total"@,
            Metric::Timeouts => "ttl_timeouts_total"@,
            Metric::LossRatio => "ttl_loss_ratio"@,
            Metric::RttAvg => "ttl_rtt_avg_seconds"@,
            Metric::RttMin => "ttl_rtt_min_seconds"@,
            Metric::RttMax => "ttl_rtt_max_seconds"@,
            Metric::RttStddev => "ttl_rtt_stddev_seconds"@,
            Metric::Responders => "ttl_hop_responders"@,
            Metric::Info => "ttl_hop_info"@,
            Metric::Reachable => "ttl_target_reachable"@,
            Metric::PathHops => "ttl_path_hops"@,
            Metric::TargetProbes => "ttl_target_probes_total"@,
        }
    }

    /// The name of a metric.
    pub fn name(self) -> (r: String)
        ensures
            r@ == self.name_text(),
    {
        match self {
            Metric::ProbesSent => copy_of("ttl_probes_sent_total"),
            Metric::Responses => copy_of("ttl_responses_total"),
            Metric::Timeouts => copy_of("ttl_timeouts_total"),
            Metric::LossRatio => copy_of("ttl_loss_ratio"),
            Metric::RttAvg => copy_of("ttl_rtt_avg_seconds"),
            Metric::RttMin => copy_of("ttl_rtt_min_seconds"),
            Metric::RttMax => copy_of("ttl_rtt_max_seconds"),
            Metric::RttStddev => copy_of("ttl_rtt_stddev_seconds"),
            Metric::Responders => copy_of("ttl_hop_responders"),
            Metric::Info => copy_of("ttl_hop_info"),
            Metric::Reachable => copy_of("ttl_target_reachable"),
            Metric::PathHops => copy_of("ttl_path_hops"),
            Metric::TargetProbes => copy_of("ttl_target_probes_total"),
        }
    }

    /// The type of a metric.
    pub open spec fn kind_text(self) -> Seq<char> {
        match self {
            Metric::ProbesSent => "counter"@,
            Metric::Responses => "counter"@,
            Metric::Timeouts => "counter"@,
            Metric::LossRatio => "gauge"@,
            Metric::RttAvg => "gauge"@,
            Metric::RttMin => "gauge"@,
            Metric::RttMax => "gauge"@,
            Metric::RttStddev => "gauge"@,
            Metric::Responders => "gauge"@,
            Metric::Info => "gauge"@,
            Metric::Reachable => "gauge"@,
            Metric::PathHops => "gauge"@,
            Metric::TargetProbes => "counter"@,
        }
    }

    /// The type of a metric.
    pub fn kind(self) -> (r: String)
        ensures
            r@ == self.kind_text(),
    {
        match self {
            Metric::ProbesSent => copy_of("counter"),
            Metric::Responses => copy_of("counter"),
            Metric::Timeouts => copy_of("counter"),
            Metric::LossRatio => copy_of("gauge"),
            Metric::RttAvg => copy_of("gauge"),
            Metric::RttMin => copy_of("gauge"),
            Metric::RttMax => copy_of("gauge"),
            Metric::RttStddev => copy_of("gauge"),
            Metric::Responders => copy_of("gauge"),
            Metric::Info => copy_of("gauge"),
            Metric::Reachable => copy_of("gauge"),
            Metric::PathHops => copy_of("gauge"),
            Metric::TargetProbes => copy_of("counter"),
        }
    }

    /// What a metric means.
    pub open spec fn help_text(self) -> Seq<char> {
        match self {
            Metric::ProbesSent => "Probes sent to this hop"@,
            Metric::Responses => "Responses received from this hop"@,
            Metric::Timeouts => "Probes that timed out at this hop"@,
            Metric::LossRatio => "Loss ratio at this hop (0-1, completed probes only)"@,
            Metric::RttAvg => "Average RTT to this hop's primary responder"@,
            Metric::RttMin => "Minimum RTT to this hop's primary responder"@,
            Metric::RttMax => "Maximum RTT to this hop's primary responder"@,
            Metric::RttStddev => "RTT standard deviation for this hop's primary responder"@,
            Metric::Responders => "Distinct responder IPs seen at this hop (ECMP)"@,
            Metric::Info => "Primary responder identity for this hop (always 1)"@,
            Metric::Reachable => "Whether the destination has responded (1) or not (0)"@,
            Metric::PathHops => "Hop count at which the destination responded"@,
            Metric::TargetProbes => "Total completed probes across all hops for this target"@,
        }
    }

    /// What a metric means.
    pub fn help(self) -> (r: String)
        ensures
            r@ == self.help_text(),
    {
        match self {
            Metric::ProbesSent => copy_of("Probes sent to this hop"),
            Metric::Responses => copy_of("Responses received from this hop"),
            Metric::Timeouts => copy_of("Probes that timed out at this hop"),
            Metric::LossRatio => copy_of("Loss ratio at this hop (0-1, completed probes only)"),
            Metric::RttAvg => copy_of("Average RTT to this hop's primary responder"),
            Metric::RttMin => copy_of("Minimum RTT to this hop's primary responder"),
            Metric::RttMax => copy_of("Maximum RTT to this hop's primary responder"),
            Metric::RttStddev => copy_of("RTT standard deviation for this hop's primary responder"),
            Metric::Responders => copy_of("Distinct responder IPs seen at this hop (ECMP)"),
            Metric::Info => copy_of("Primary responder identity for this hop (always 1)"),
            Metric::Reachable => copy_of("Whether the destination has responded (1) or not (0)"),
            Metric::PathHops => copy_of("Hop count at which the destination responded"),
            Metric::TargetProbes => copy_of("Total completed probes across all hops for this target"),
        }
    }
}

/// All metrics in the order of the output.
pub open spec fn all_metrics() -> Seq<Metric> {
    seq![
        Metric::ProbesSent,
        Metric::Responses,
        Metric::Timeouts,
        Metric::LossRatio,
        Metric::RttAvg,
        Metric::RttMin,
        Metric::RttMax,
        Metric::RttStddev,
        Metric::Responders,
        Metric::Info,
        Metric::Reachable,
        Metric::PathHops,
        Metric::TargetProbes,
    ]
}

/// All metrics in the order of the output.
pub fn metrics() -> (r: Vec<Metric>)
    ensures
        r@ == all_metrics(),
{
    vec![
        Metric::ProbesSent,
        Metric::Responses,
        Metric::Timeouts,
        Metric::LossRatio,
        Metric::RttAvg,
        Metric::RttMin,
        Metric::RttMax,
        Metric::RttStddev,
        Metric::Responders,
        Metric::Info,
        Metric::Reachable,
        Metric::PathHops,
        Metric::TargetProbes,
    ]
}

/// Text as the value of a label: without control characters, with backslashes
/// and quotes escaped.
pub open spec fn label_value(s: Seq<char>) -> Seq<char> {
    replaced(replaced(sanitized(s), '\\', "\\\\"@), '"', "\\\""@)
}

/// Escapes text for use as the value of a label.
pub fn escape_label(s: &str) -> (r: String)
    ensures
        r@ == label_value(s@),
{
    let safe: String = sanitize_display(s);
    let slashed: String = replace_char(safe.as_str(), '\\', "\\\\");
    replace_char(slashed.as_str(), '"', "\\\"")
}

/// The labels of a target.
pub open spec fn target_labels(session: Session) -> Seq<char> {
    "target=\""@ + session.target.resolved.text@ + "\",host=\""@ + label_value(
        session.target.original@,
    ) + "\""@
}

/// The labels of a hop.
pub open spec fn hop_labels(session: Session, hop: Hop) -> Seq<char> {
    target_labels(session) + ",ttl=\""@ + decimal(hop.ttl as nat) + "\""@
}

/// The host name of a hop's primary responder, empty if unknown.
pub open spec fn name_or_empty(name: Option<Seq<char>>) -> Seq<char> {
    match name {
        Some(n) => n,
        None => ""@,
    }
}

/// The labels and the value of a metric at a hop, if it has one there.
pub open spec fn hop_value(metric: Metric, session: Session, hop: Hop) -> Option<
    (Seq<char>, Seq<char>),
> {
    let labels = hop_labels(session, hop);
    if hop.sent == 0 {
        None
    } else {
        match metric {
            Metric::ProbesSent => Some((labels, decimal(hop.sent as nat))),
            Metric::Responses => Some((labels, decimal(hop.received as nat))),
            Metric::Timeouts => Some((labels, decimal(hop.timeouts as nat))),
            Metric::LossRatio => Some((labels, hop.loss@)),
            _ => match hop.shown() {
                None => None,
                Some(stats) => match metric {
                    Metric::RttAvg => Some((labels, stats.figures.avg@)),
                    Metric::RttMin => Some((labels, stats.figures.min@)),
                    Metric::RttMax => Some((labels, stats.figures.max@)),
                    Metric::RttStddev => Some((labels, stats.figures.stddev@)),
                    Metric::Responders => Some((labels, decimal(hop.responders@.len()))),
                    Metric::Info => Some(
                        (
                            labels + ",ip=\""@ + stats.address.text@ + "\",hostname=\""@
                                + label_value(name_or_empty(opt_text(stats.hostname))) + "\""@,
                            "1"@,
                        ),
                    ),
                    _ => None,
                },
            },
        }
    }
}

/// The value of a metric of the whole target, if it has one.
pub open spec fn target_value(metric: Metric, session: Session) -> Option<Seq<char>> {
    match metric {
        Metric::Reachable => Some(
            if session.complete {
                "1"@
            } else {
                "0"@
            },
        ),
        Metric::PathHops => match session.dest_ttl {
            Some(ttl) => Some(decimal(ttl as nat)),
            None => None,
        },
        Metric::TargetProbes => Some(decimal(session.total_sent as nat)),
        _ => None,
    }
}

/// One line of output.
pub open spec fn sample(metric: Metric, labels: Seq<char>, value: Seq<char>) -> Seq<char> {
    metric.name_text() + "{"@ + labels + "} "@ + value + "\n"@
}

/// The lines of a metric for the first `n` hops of a session.
pub open spec fn hop_samples(metric: Metric, session: Session, n: nat) -> Seq<char>
    decreases n,
{
    if n == 0 {
        Seq::empty()
    } else {
        let rest = hop_samples(metric, session, (n - 1) as nat);
        match hop_value(metric, session, session.hops@[n - 1]) {
            Some(v) => rest + sample(metric, v.0, v.1),
            None => rest,
        }
    }
}

/// The lines of a metric for a session.
pub open spec fn session_samples(metric: Metric, session: Session) -> Seq<char> {
    hop_samples(metric, session, session.hops@.len()) + match target_value(metric, session) {
        Some(v) => sample(metric, target_labels(session), v),
        None => Seq::empty(),
    }
}

/// The lines of a metric for the first `n` sessions.
pub open spec fn samples(metric: Metric, sessions: Seq<Session>, n: nat) -> Seq<char>
    decreases n,
{
    if n == 0 {
        Seq::empty()
    } else {
        samples(metric, sessions, (n - 1) as nat) + session_samples(metric, sessions[n - 1])
    }
}

/// The part of the output about a metric: nothing if it has no line.
pub open spec fn metric_part(metric: Metric, sessions: Seq<Session>) -> Seq<char> {
    let lines = samples(metric, sessions, sessions.len());
    if lines.len() == 0 {
        Seq::empty()
    } else {
        "# HELP "@ + metric.name_text() + " "@ + metric.help_text() + "\n# TYPE "@
            + metric.name_text() + " "@ + metric.kind_text() + "\n"@ + lines
    }
}

/// The parts about the first `n` metrics.
pub open spec fn metric_parts(sessions: Seq<Session>, n: nat) -> Seq<char>
    decreases n,
{
    if n == 0 {
        Seq::empty()
    } else {
        metric_parts(sessions, (n - 1) as nat) + metric_part(all_metrics()[n - 1], sessions)
    }
}

/// Whether all counts are numbers that the format keeps exactly (its values
/// are double-precision numbers).
pub open spec fn counts_exact(session: Session) -> bool {
    &&& session.total_sent <= 0x20000000000000
    &&& forall|i: int|
        0 <= i < session.hops@.len() ==> {
            &&& (#[trigger] session.hops@[i]).sent <= 0x20000000000000
            &&& session.hops@[i].received <= 0x20000000000000
            &&& session.hops@[i].timeouts <= 0x20000000000000
            &&& session.hops@[i].responders@.len() <= 0x20000000000000
        }
}

fn target_labels_text(session: &Session) -> (r: String)
    ensures
        r@ == target_labels(*session),
{
    let host: String = escape_label(session.target.original.as_str());
    let mut out: String = copy_of("target=\"");
    push_text(&mut out, session.target.resolved.text.as_str());
    push_text(&mut out, "\",host=\"");
    push_text(&mut out, host.as_str());
    push_text(&mut out, "\"");
    out
}

fn hop_labels_text(session: &Session, hop: &Hop) -> (r: String)
    ensures
        r@ == hop_labels(*session, *hop),
{
    let mut out: String = target_labels_text(session);
    push_text(&mut out, ",ttl=\"");
    push_decimal(&mut out, hop.ttl as u64);
    push_text(&mut out, "\"");
    out
}

fn hop_value_text(metric: Metric, session: &Session, hop: &Hop) -> (r: Option<(String, String)>)
    ensures
        match hop_value(metric, *session, *hop) {
            Some(v) => r matches Some(x) && x.0@ == v.0 && x.1@ == v.1,
            None => r is None,
        },
{
    if hop.sent == 0 {
        return None;
    }
    let mut labels: String = hop_labels_text(session, hop);
    match metric {
        Metric::ProbesSent => Some((labels, decimal_string(hop.sent))),
        Metric::Responses => Some((labels, decimal_string(hop.received))),
        Metric::Timeouts => Some((labels, decimal_string(hop.timeouts))),
        Metric::LossRatio => Some((labels, copy_of(hop.loss.as_str()))),
        _ => match hop.primary_stats() {
            None => None,
            Some(stats) => match metric {
                Metric::RttAvg => Some((labels, copy_of(stats.figures.avg.as_str()))),
                Metric::RttMin => Some((labels, copy_of(stats.figures.min.as_str()))),
                Metric::RttMax => Some((labels, copy_of(stats.figures.max.as_str()))),
                Metric::RttStddev => Some((labels, copy_of(stats.figures.stddev.as_str()))),
                Metric::Responders => Some((labels, decimal_string(hop.responders.len() as u64))),
                Metric::Info => {
                    let name: String = match &stats.hostname {
                        Some(n) => escape_label(n.as_str()),
                        None => escape_label(""),
                    };
                    push_text(&mut labels, ",ip=\"");
                    push_text(&mut labels, stats.address.text.as_str());
                    push_text(&mut labels, "\",hostname=\"");
                    push_text(&mut labels, name.as_str());
                    push_text(&mut labels, "\"");
                    Some((labels, copy_of("1")))
                },
                _ => None,
            },
        },
    }
}

fn target_value_text(metric: Metric, session: &Session) -> (r: Option<String>)
    ensures
        opt_text(r) == target_value(metric, *session),
{
    match metric {
        Metric::Reachable => Some(
            if session.complete {
                copy_of("1")
            } else {
                copy_of("0")
            },
        ),
        Metric::PathHops => match session.dest_ttl {
            Some(ttl) => Some(decimal_string(ttl as u64)),
            None => None,
        },
        Metric::TargetProbes => Some(decimal_string(session.total_sent)),
        _ => None,
    }
}

fn sample_text(metric: Metric, labels: &str, value: &str) -> (r: String)
    ensures
        r@ == sample(metric, labels@, value@),
{
    let mut out: String = metric.name();
    push_text(&mut out, "{");
    push_text(&mut out, labels);
    push_text(&mut out, "} ");
    push_text(&mut out, value);
    push_text(&mut out, "\n");
    out
}

/// Appends the lines of a metric for a session.
fn push_session_samples(out: &mut String, metric: Metric, session: &Session)
    ensures
        final(out)@ == old(out)@ + session_samples(metric, *session),
{
    let ghost start = out@;
    let mut i: usize = 0;
    assert(start + hop_samples(metric, *session, 0) =~= start);
    while i < session.hops.len()
        invariant
            i <= session.hops.len(),
            out@ == start + hop_samples(metric, *session, i as nat),
        decreases session.hops.len() - i,
    {
        if let Some(v) = hop_value_text(metric, session, &session.hops[i]) {
            let line: String = sample_text(metric, v.0.as_str(), v.1.as_str());
            push_text(out, line.as_str());
            assert(out@ =~= start + hop_samples(metric, *session, (i + 1) as nat));
        }
        i = i + 1;
    }
    let ghost mid = out@;
    if let Some(v) = target_value_text(metric, session) {
        let labels: String = target_labels_text(session);
        let line: String = sample_text(metric, labels.as_str(), v.as_str());
        push_text(out, line.as_str());
    } else {
        assert(mid + Seq::empty() =~= mid);
    }
    assert(out@ =~= start + session_samples(metric, *session));
}

fn metric_part_text(metric: Metric, sessions: &Vec<Session>) -> (r: String)
    ensures
        r@ == metric_part(metric, sessions@),
{
    let mut lines: String = String::new();
    let mut i: usize = 0;
    assert(lines@ =~= samples(metric, sessions@, 0));
    while i < sessions.len()
        invariant
            i <= sessions.len(),
            lines@ == samples(metric, sessions@, i as nat),
        decreases sessions.len() - i,
    {
        push_session_samples(&mut lines, metric, &sessions[i]);
        i = i + 1;
    }
    if crate::text::char_count(lines.as_str()) == 0 {
        let none: String = String::new();
        assert(none@ =~= Seq::empty());
        return none;
    }
    let name: String = metric.name();
    let help: String = metric.help();
    let kind: String = metric.kind();
    let mut out: String = copy_of("# HELP ");
    push_text(&mut out, name.as_str());
    push_text(&mut out, " ");
    push_text(&mut out, help.as_str());
    push_text(&mut out, "\n# TYPE ");
    push_text(&mut out, name.as_str());
    push_text(&mut out, " ");
    push_text(&mut out, kind.as_str());
    push_text(&mut out, "\n");
    push_text(&mut out, lines.as_str());
    out
}

/// Renders sessions, in the order given, as exposition text: the lines of each
/// metric together, under its description.
pub fn render_metrics(sessions: &Vec<Session>) -> (r: String)
    requires
        forall|i: int| 0 <= i < sessions@.len() ==> counts_exact(#[trigger] sessions@[i]),
    ensures
        r@ == metric_parts(sessions@, all_metrics().len()),
{
    let list: Vec<Metric> = metrics();
    let mut out: String = String::new();
    let mut i: usize = 0;
    assert(out@ =~= metric_parts(sessions@, 0));
    while i < list.len()
        invariant
            i <= list.len(),
            list@ == all_metrics(),
            out@ == metric_parts(sessions@, i as nat),
        decreases list.len() - i,
    {
        let part: String = metric_part_text(list[i], sessions);
        push_text(&mut out, part.as_str());
        i = i + 1;
    }
    out
}

/// The pages of the exporter.
#[derive(Clone, Copy, Debug, PartialEq, Eq, Structural)]
pub enum Page {
    Metrics,
    Health,
    NotFound,
    BadMethod,
}

/// The page that a method and a path ask for.
pub open spec fn page_of(method: Seq<char>, path: Seq<char>) -> Page {
    if method != "GET"@ {
        Page::BadMethod
    } else if path == "/metrics"@ {
        Page::Metrics
    } else if path == "/healthz"@ || path == "/health"@ {
        Page::Health
    } else {
        Page::NotFound
    }
}

/// The page that a request asks for: its first word is the method (empty if
/// missing), its second the path (`/` if missing).
pub open spec fn requested(request: Seq<char>) -> Page {
    page_of(
        match word(request, 0) {
            Some(m) => m,
            None => ""@,
        },
        match word(request, 1) {
            Some(p) => p,
            None => "/"@,
        },
    )
}

/// The page that the head of a request asks for.
pub fn route(request: &str) -> (r: Page)
    ensures
        r == requested(request@),
{
    let chars: Vec<char> = chars_of(request);
    let method: String = match nth_word(&chars, 0) {
        Some(m) => string_of(&m),
        None => copy_of(""),
    };
    let path: String = match nth_word(&chars, 1) {
        Some(p) => string_of(&p),
        None => copy_of("/"),
    };
    if !same_text(method.as_str(), "GET") {
        Page::BadMethod
    } else if same_text(path.as_str(), "/metrics") {
        Page::Metrics
    } else if same_text(path.as_str(), "/healthz") || same_text(path.as_str(), "/health") {
        Page::Health
    } else {
        Page::NotFound
    }
}

/// The page that the bytes of a request ask for.
pub fn route_bytes(request: &[u8]) -> (r: Page)
    ensures
        r == requested(lossy_text(request@)),
{
    let text: String = utf8_lossy(request);
    route(text.as_str())
}

/// The status line of a page.
pub open spec fn status(page: Page) -> Seq<char> {
    match page {
        Page::Metrics | Page::Health => "200 OK"@,
        Page::NotFound => "404 Not Found"@,
        Page::BadMethod => "405 Method Not Allowed"@,
    }
}

/// The content type of a page.
pub open spec fn content_type(page: Page) -> Seq<char> {
    match page {
        Page::Metrics => "text/plain; version=0.0.4; charset=utf-8"@,
        _ => "text/plain; charset=utf-8"@,
    }
}

/// The body of a page; that of the metrics is given.
pub open spec fn page_body(page: Page, rendered: Seq<char>) -> Seq<char> {
    match page {
        Page::Metrics => rendered,
        Page::Health => "ok\n"@,
        Page::NotFound => "not found\n"@,
        Page::BadMethod => "method not allowed\n"@,
    }
}

/// The response that carries a page.
pub open spec fn response_text(page: Page, rendered: Seq<char>) -> Seq<char> {
    let body = page_body(page, rendered);
    "HTTP/1.1 "@ + status(page) + "\r\nContent-Type: "@ + content_type(page)
        + "\r\nContent-Length: "@ + decimal(text_bytes(body)) + "\r\nConnection: close\r\n\r\n"@
        + body
}

/// Builds the response that carries a page. The length it announces is that
/// of the body in bytes.
pub fn response(page: Page, rendered: &str) -> (r: String)
    ensures
        r@ == response_text(page, rendered@),
{
    let body: &str = match page {
        Page::Metrics => rendered,
        Page::Health => "ok\n",
        Page::NotFound => "not found\n",
        Page::BadMethod => "method not allowed\n",
    };
    let mut out: String = copy_of("HTTP/1.1 ");
    push_text(
        &mut out,
        match page {
            Page::Metrics | Page::Health => "200 OK",
            Page::NotFound => "404 Not Found",
            Page::BadMethod => "405 Method Not Allowed",
        },
    );
    push_text(&mut out, "\r\nContent-Type: ");
    push_text(
        &mut out,
        match page {
            Page::Metrics => "text/plain; version=0.0.4; charset=utf-8",
            _ => "text/plain; charset=utf-8",
        },
    );
    push_text(&mut out, "\r\nContent-Length: ");
    push_decimal(&mut out, byte_len(body) as u64);
    push_text(&mut out, "\r\nConnection: close\r\n\r\n");
    push_text(&mut out, body);
    out
}

/// What a reader of the format takes a label value for: a backslash stands
/// before the character that is meant.
pub open spec fn label_read(s: Seq<char>) -> Seq<char>
    decreases s.len(),
{
    if s.len() == 0 {
        s
    } else if s[0] == '\\' && s.len() > 1 {
        seq![s[1]] + label_read(s.skip(2))
    } else {
        seq![s[0]] + label_read(s.skip(1))
    }
}

/// Where the value of a label ends: at the first quote without a backslash
/// before it, or at the end of the text.
pub open spec fn label_end(s: Seq<char>) -> nat
    decreases s.len(),
{
    if s.len() == 0 || s[0] == '"' {
        0
    } else if s[0] == '\\' && s.len() > 1 {
        2 + label_end(s.skip(2))
    } else {
        1 + label_end(s.skip(1))
    }
}

/// A character as it is written in a label value.
spec fn label_char(c: char) -> Seq<char> {
    if c == '\\' {
        seq!['\\', '\\']
    } else if c == '"' {
        seq!['\\', '"']
    } else {
        seq![c]
    }
}

/// Text as it is written in a label value, character by character.
spec fn label_chars(s: Seq<char>) -> Seq<char>
    decreases s.len(),
{
    if s.len() == 0 {
        s
    } else {
        label_char(s[0]) + label_chars(s.skip(1))
    }
}

/// Replacing works on the parts of a text.
proof fn lemma_replaced_add(a: Seq<char>, b: Seq<char>, c: char, with: Seq<char>)
    ensures
        replaced(a + b, c, with) == replaced(a, c, with) + replaced(b, c, with),
    decreases b.len(),
{
    if b.len() == 0 {
        assert(a + b =~= a);
        assert(replaced(a, c, with) + replaced(b, c, with) =~= replaced(a, c, with));
    } else {
        assert((a + b).drop_last() =~= a + b.drop_last());
        lemma_replaced_add(a, b.drop_last(), c, with);
        assert(replaced(a + b, c, with) =~= replaced(a, c, with) + replaced(b, c, with));
    }
}

/// Replacing in a text of one character.
proof fn lemma_replaced_one(x: char, c: char, with: Seq<char>)
    ensures
        replaced(seq![x], c, with) == (if x == c {
            with
        } else {
            seq![x]
        }),
{
    let s = seq![x];
    assert(s.drop_last() =~= Seq::empty());
    assert(replaced(Seq::empty(), c, with) =~= Seq::empty());
    assert(s.last() == x);
    assert(Seq::<char>::empty() + with =~= with);
    assert(Seq::<char>::empty().push(x) =~= s);
}

proof fn lemma_label_chars(s: Seq<char>)
    ensures
        replaced(replaced(s, '\\', "\\\\"@), '"', "\\\""@) == label_chars(s),
    decreases s.len(),
{
    reveal_strlit("\\\\");
    reveal_strlit("\\\"");
    let slash = seq!['\\', '\\'];
    let quote = seq!['\\', '"'];
    assert("\\\\"@ =~= slash);
    assert("\\\""@ =~= quote);
    if s.len() == 0 {
        assert(replaced(s, '\\', slash) =~= s);
        assert(replaced(s, '"', quote) =~= s);
    } else {
        let one = seq![s[0]];
        let rest = s.skip(1);
        assert(s =~= one + rest);
        lemma_label_chars(rest);
        lemma_replaced_add(one, rest, '\\', slash);
        lemma_replaced_one(s[0], '\\', slash);
        let head = replaced(one, '\\', slash);
        lemma_replaced_add(head, replaced(rest, '\\', slash), '"', quote);
        if s[0] == '\\' {
            assert(slash =~= seq!['\\'] + seq!['\\']);
            lemma_replaced_add(seq!['\\'], seq!['\\'], '"', quote);
            lemma_replaced_one('\\', '"', quote);
        } else {
            lemma_replaced_one(s[0], '"', quote);
        }
        assert(replaced(head, '"', quote) =~= label_char(s[0]));
    }
}

proof fn lemma_label_read(s: Seq<char>, after: Seq<char>)
    requires
        after.len() > 0,
        after[0] == '"',
    ensures
        label_read(label_chars(s)) == s,
        label_end(label_chars(s) + after) == label_chars(s).len(),
    decreases s.len(),
{
    let w = label_chars(s);
    if s.len() == 0 {
        assert(w + after =~= after);
    } else {
        let rest = label_chars(s.skip(1));
        let head = label_char(s[0]);
        lemma_label_read(s.skip(1), after);
        assert(w == head + rest);
        assert(w.skip(head.len() as int) =~= rest);
        assert((w + after).skip(head.len() as int) =~= rest + after);
        assert(w[0] == head[0]);
        assert((w + after)[0] == head[0]);
        assert(seq![s[0]] + s.skip(1) =~= s);
        if s[0] == '\\' || s[0] == '"' {
            assert(w[1] == head[1]);
            assert(head[1] == s[0]);
        }
    }
}

/// Whatever name is put into a label, the value ends where it was meant to
/// end, and a reader gets the name back without its control characters.
pub proof fn law_label_round_trip(s: Seq<char>, after: Seq<char>)
    requires
        after.len() > 0,
        after[0] == '"',
    ensures
        label_read(label_value(s)) == sanitized(s),
        label_end(label_value(s) + after) == label_value(s).len(),
{
    lemma_label_chars(sanitized(s));
    lemma_label_read(sanitized(s), after);
}

/// Whether a text stands somewhere in another.
pub open spec fn within(part: Seq<char>, whole: Seq<char>) -> bool {
    exists|a: Seq<char>, b: Seq<char>| whole == #[trigger] (a + part + b)
}

/// What stands in a part stands in the whole.
proof fn lemma_within(part: Seq<char>, middle: Seq<char>, front: Seq<char>, back: Seq<char>)
    requires
        within(part, middle),
    ensures
        within(part, front + middle + back),
        within(part, front + middle),
        within(part, middle + back),
{
    let (a, b) = choose|a: Seq<char>, b: Seq<char>| middle == #[trigger] (a + part + b);
    assert(front + middle + back =~= (front + a) + part + (b + back));
    assert(front + middle =~= (front + a) + part + b);
    assert(middle + back =~= a + part + (b + back));
}

/// A text stands in itself.
proof fn lemma_within_self(part: Seq<char>)
    ensures
        within(part, part),
{
    assert(part =~= Seq::<char>::empty() + part + Seq::<char>::empty());
}

/// The sample of a hop stands among those of its session.
proof fn lemma_hop_sample(metric: Metric, session: Session, n: nat, h: int, part: Seq<char>)
    requires
        0 <= h < n <= session.hops@.len(),
        hop_value(metric, session, session.hops@[h]) matches Some(v) && part == sample(
            metric,
            v.0,
            v.1,
        ),
    ensures
        within(part, hop_samples(metric, session, n)),
    decreases n,
{
    let rest = hop_samples(metric, session, (n - 1) as nat);
    if h == n - 1 {
        lemma_within_self(part);
        lemma_within(part, part, rest, Seq::empty());
    } else {
        lemma_hop_sample(metric, session, (n - 1) as nat, h, part);
        match hop_value(metric, session, session.hops@[n - 1]) {
            Some(v) => {
                lemma_within(part, rest, Seq::empty(), sample(metric, v.0, v.1));
            },
            None => {},
        }
    }
}

/// What stands among the samples of a session stands among all.
proof fn lemma_session_sample(
    metric: Metric,
    sessions: Seq<Session>,
    n: nat,
    i: int,
    part: Seq<char>,
)
    requires
        0 <= i < n <= sessions.len(),
        within(part, session_samples(metric, sessions[i])),
    ensures
        within(part, samples(metric, sessions, n)),
    decreases n,
{
    let rest = samples(metric, sessions, (n - 1) as nat);
    let last = session_samples(metric, sessions[n - 1]);
    if i == n - 1 {
        lemma_within(part, last, rest, Seq::empty());
    } else {
        lemma_session_sample(metric, sessions, (n - 1) as nat, i, part);
        lemma_within(part, rest, Seq::empty(), last);
    }
}

/// What stands among the samples of a metric stands in the page.
proof fn lemma_metric_part(sessions: Seq<Session>, n: nat, m: int, part: Seq<char>)
    requires
        0 <= m < n <= all_metrics().len(),
        part.len() > 0,
        within(part, samples(all_metrics()[m], sessions, sessions.len())),
    ensures
        within(part, metric_parts(sessions, n)),
    decreases n,
{
    let rest = metric_parts(sessions, (n - 1) as nat);
    let last = metric_part(all_metrics()[n - 1], sessions);
    if m == n - 1 {
        let metric = all_metrics()[m];
        let lines = samples(metric, sessions, sessions.len());
        let (a, b) = choose|a: Seq<char>, b: Seq<char>| lines == #[trigger] (a + part + b);
        assert(lines.len() > 0);
        let head = "# HELP "@ + metric.name_text() + " "@ + metric.help_text() + "\n# TYPE "@
            + metric.name_text() + " "@ + metric.kind_text() + "\n"@;
        lemma_within(part, lines, head, Seq::empty());
        lemma_within(part, last, rest, Seq::empty());
    } else {
        lemma_metric_part(sessions, (n - 1) as nat, m, part);
        lemma_within(part, rest, Seq::empty(), last);
    }
}

/// The sample of a hop stands in the page.
proof fn lemma_hop_rendered(
    sessions: Seq<Session>,
    i: int,
    h: int,
    m: int,
    labels: Seq<char>,
    value: Seq<char>,
    r: Seq<char>,
)
    requires
        0 <= m < 13,
        0 <= i < sessions.len(),
        0 <= h < sessions[i].hops@.len(),
        hop_value(all_metrics()[m], sessions[i], sessions[i].hops@[h]) == Some((labels, value)),
        r == metric_parts(sessions, 13),
    ensures
        within(sample(all_metrics()[m], labels, value), r),
{
    let metric = all_metrics()[m];
    let part = sample(metric, labels, value);
    reveal_strlit("\n");
    let session = sessions[i];
    lemma_hop_sample(metric, session, session.hops@.len(), h, part);
    lemma_within(
        part,
        hop_samples(metric, session, session.hops@.len()),
        Seq::empty(),
        match target_value(metric, session) {
            Some(v) => sample(metric, target_labels(session), v),
            None => Seq::empty(),
        },
    );
    lemma_session_sample(metric, sessions, sessions.len(), i, part);
    assert(all_metrics().len() == 13);
    lemma_metric_part(sessions, 13, m, part);
}

/// What was counted and measured at a hop is told under the name of what it
/// is, with the target, its name and the TTL: what was sent, came back and
/// timed out, the loss, and of the primary responder the average, least and
/// greatest time and their spread.
pub proof fn law_hop_told_by_name(sessions: &Vec<Session>, r: String, i: int, h: int)
    requires
        call_ensures(render_metrics, (sessions,), r),
        0 <= i < sessions@.len(),
        0 <= h < sessions@[i].hops@.len(),
        sessions@[i].hops@[h].sent > 0,
    ensures
        ({
            let session = sessions@[i];
            let hop = session.hops@[h];
            let labels = "target=\""@ + session.target.resolved.text@ + "\",host=\""@ + label_value(
                session.target.original@,
            ) + "\""@ + ",ttl=\""@ + decimal(hop.ttl as nat) + "\""@;
            &&& within("ttl_probes_sent_total"@ + "{"@ + labels + "} "@ + decimal(hop.sent as nat) + "\n"@, r@)
            &&& within("ttl_responses_total"@ + "{"@ + labels + "} "@ + decimal(hop.received as nat) + "\n"@, r@)
            &&& within("ttl_timeouts_total"@ + "{"@ + labels + "} "@ + decimal(hop.timeouts as nat) + "\n"@, r@)
            &&& within("ttl_loss_ratio"@ + "{"@ + labels + "} "@ + hop.loss@ + "\n"@, r@)
            &&& hop.shown() matches Some(stats) ==> {
                &&& within("ttl_rtt_avg_seconds"@ + "{"@ + labels + "} "@ + stats.figures.avg@ + "\n"@, r@)
                &&& within("ttl_rtt_min_seconds"@ + "{"@ + labels + "} "@ + stats.figures.min@ + "\n"@, r@)
                &&& within("ttl_rtt_max_seconds"@ + "{"@ + labels + "} "@ + stats.figures.max@ + "\n"@, r@)
                &&& within("ttl_rtt_stddev_seconds"@ + "{"@ + labels + "} "@ + stats.figures.stddev@ + "\n"@, r@)
                &&& within("ttl_hop_responders"@ + "{"@ + labels + "} "@ + decimal(hop.responders@.len()) + "\n"@, r@)
                &&& within(
                    "ttl_hop_info"@ + "{"@ + (labels + ",ip=\""@ + stats.address.text@
                        + "\",hostname=\""@ + label_value(
                        match stats.hostname {
                            Some(name) => name@,
                            None => ""@,
                        },
                    ) + "\""@) + "} "@ + "1"@ + "\n"@,
                    r@,
                )
            }
        }),
{
    let session = sessions@[i];
    let hop = session.hops@[h];
    let labels = hop_labels(session, hop);
    assert(all_metrics().len() == 13);
    lemma_hop_rendered(sessions@, i, h, 0, labels, decimal(hop.sent as nat), r@);
    lemma_hop_rendered(sessions@, i, h, 1, labels, decimal(hop.received as nat), r@);
    lemma_hop_rendered(sessions@, i, h, 2, labels, decimal(hop.timeouts as nat), r@);
    lemma_hop_rendered(sessions@, i, h, 3, labels, hop.loss@, r@);
    if let Some(stats) = hop.shown() {
        lemma_hop_rendered(sessions@, i, h, 4, labels, stats.figures.avg@, r@);
        lemma_hop_rendered(sessions@, i, h, 5, labels, stats.figures.min@, r@);
        lemma_hop_rendered(sessions@, i, h, 6, labels, stats.figures.max@, r@);
        lemma_hop_rendered(sessions@, i, h, 7, labels, stats.figures.stddev@, r@);
        lemma_hop_rendered(sessions@, i, h, 8, labels, decimal(hop.responders@.len()), r@);
        let name = name_or_empty(opt_text(stats.hostname));
        lemma_hop_rendered(
            sessions@,
            i,
            h,
            9,
            labels + ",ip=\""@ + stats.address.text@ + "\",hostname=\""@ + label_value(name)
                + "\""@,
            "1"@,
            r@,
        );
    }
}

/// Whether a target was reached, at what distance, and how much was sent to
/// it is told under the name of what it is.
pub proof fn law_target_told_by_name(sessions: &Vec<Session>, r: String, i: int)
    requires
        call_ensures(render_metrics, (sessions,), r),
        0 <= i < sessions@.len(),
    ensures
        ({
            let session = sessions@[i];
            let labels = "target=\""@ + session.target.resolved.text@ + "\",host=\""@ + label_value(
                session.target.original@,
            ) + "\""@;
            &&& session.complete ==> within("ttl_target_reachable"@ + "{"@ + labels + "} "@ + "1"@ + "\n"@, r@)
            &&& !session.complete ==> within("ttl_target_reachable"@ + "{"@ + labels + "} "@ + "0"@ + "\n"@, r@)
            &&& session.dest_ttl matches Some(ttl) ==> within("ttl_path_hops"@ + "{"@ + labels + "} "@ + decimal(ttl as nat) + "\n"@, r@)
            &&& within("ttl_target_probes_total"@ + "{"@ + labels + "} "@ + decimal(session.total_sent as nat) + "\n"@, r@)
        }),
{
    let session = sessions@[i];
    lemma_target_rendered(sessions@, i, 10, r@);
    lemma_target_rendered(sessions@, i, 11, r@);
    lemma_target_rendered(sessions@, i, 12, r@);
}

/// The sample of a target stands in the page.
proof fn lemma_target_rendered(sessions: Seq<Session>, i: int, m: int, r: Seq<char>)
    requires
        0 <= m < 13,
        0 <= i < sessions.len(),
        r == metric_parts(sessions, 13),
    ensures
        target_value(all_metrics()[m], sessions[i]) matches Some(v) ==> within(
            sample(all_metrics()[m], target_labels(sessions[i]), v),
            r,
        ),
{
    let metric = all_metrics()[m];
    let session = sessions[i];
    if let Some(v) = target_value(metric, session) {
        let part = sample(metric, target_labels(session), v);
        reveal_strlit("\n");
        lemma_within_self(part);
        lemma_within(
            part,
            part,
            hop_samples(metric, session, session.hops@.len()),
            Seq::empty(),
        );
        lemma_session_sample(metric, sessions, sessions.len(), i, part);
        assert(all_metrics().len() == 13);
        lemma_metric_part(sessions, 13, m, part);
    }
}

/// A label reads back as the text that it stands for.
pub proof fn law_escaped_label_read_back(s: &str, r: String)
    requires
        call_ensures(escape_label, (s,), r),
    ensures
        label_read(r@) == sanitized(s@),
{
    law_label_round_trip(s@, seq!['"']);
}

/// Words of a request with single spaces between them.
proof fn lemma_words(a: Seq<char>, b: Seq<char>, rest: Seq<char>)
    requires
        a.len() > 0,
        b.len() > 0,
        forall|i: int| 0 <= i < a.len() ==> '!' <= #[trigger] a[i] <= '~',
        forall|i: int| 0 <= i < b.len() ==> '!' <= #[trigger] b[i] <= '~',
        rest.len() == 0 || rest[0] == ' ' || rest[0] == '\r' || rest[0] == '\n',
    ensures
        word(a + seq![' '] + (b + rest), 0) == Some(a),
        word(a + seq![' '] + (b + rest), 1) == Some(b),
{
    let s = a + seq![' '] + (b + rest);
    let tail = seq![' '] + (b + rest);
    assert(s =~= a + tail);
    lemma_first_word(a, tail);
    assert(s.take(a.len() as int) =~= a);
    assert(s.skip(a.len() as int) =~= tail);
    let t = b + rest;
    assert(tail.skip(1) =~= t);
    lemma_printable_not_space(t[0]);
    lemma_printable_not_space(s[0]);
    assert(crate::fields::trimmed_start(tail) == crate::fields::trimmed_start(t));
    assert(crate::fields::trimmed_start(t) == t);
    assert(crate::fields::trimmed_start(s) == s);
    lemma_first_word(b, rest);
    assert(t.take(b.len() as int) =~= b);
    reveal_with_fuel(word, 2);
}

/// A word ends where white space begins.
proof fn lemma_first_word(a: Seq<char>, tail: Seq<char>)
    requires
        forall|i: int| 0 <= i < a.len() ==> '!' <= #[trigger] a[i] <= '~',
        tail.len() == 0 || tail[0] == ' ' || tail[0] == '\r' || tail[0] == '\n',
    ensures
        crate::fields::first_space(a + tail) == a.len(),
    decreases a.len(),
{
    let s = a + tail;
    if a.len() == 0 {
        assert(s =~= tail);
    } else {
        lemma_printable_not_space(a[0]);
        assert(s[0] == a[0]);
        assert(s.skip(1) =~= a.skip(1) + tail);
        assert forall|i: int| 0 <= i < a.skip(1).len() implies '!' <= #[trigger] a.skip(1)[i]
            <= '~' by {
            assert(a.skip(1)[i] == a[i + 1]);
        }
        lemma_first_word(a.skip(1), tail);
    }
}

/// Printable characters are no white space.
proof fn lemma_printable_not_space(c: char)
    requires
        '!' <= c <= '~',
    ensures
        !crate::fields::is_space_char(c),
{
}

/// A request is answered by its method and its path, whatever follows them:
/// only GET is served, of it the metrics and two names for whether all is
/// well.
pub proof fn law_requests_served(
    request: &str,
    method: Seq<char>,
    path: Seq<char>,
    rest: Seq<char>,
    r: Page,
)
    requires
        call_ensures(route, (request,), r),
        request@ == method + seq![' '] + (path + rest),
        method.len() > 0,
        path.len() > 0,
        forall|i: int| 0 <= i < method.len() ==> '!' <= #[trigger] method[i] <= '~',
        forall|i: int| 0 <= i < path.len() ==> '!' <= #[trigger] path[i] <= '~',
        rest.len() == 0 || rest[0] == ' ' || rest[0] == '\r' || rest[0] == '\n',
    ensures
        r == Page::BadMethod <==> method != "GET"@,
        method == "GET"@ ==> (r == Page::Metrics <==> path == "/metrics"@),
        method == "GET"@ ==> (r == Page::Health <==> path == "/healthz"@ || path == "/health"@),
{
    lemma_words(method, path, rest);
    reveal_strlit("/metrics");
    reveal_strlit("/healthz");
    reveal_strlit("/health");
    assert("/metrics"@[1] != "/healthz"@[1]);
    assert("/metrics"@[1] != "/health"@[1]);
}

/// An answer says how many bytes its body has, and ends with it.
pub proof fn law_answer_measures_its_body(page: Page, rendered: &str, r: String)
    requires
        call_ensures(response, (page, rendered), r),
    ensures
        exists|head: Seq<char>, body: Seq<char>|
            {
                &&& r@ == #[trigger] (head + decimal(vstd::utf8::encode_utf8(body).len())
                    + "\r\nConnection: close\r\n\r\n"@ + body)
                &&& page == Page::Metrics ==> body == rendered@ && head == "HTTP/1.1 "@ + "200 OK"@
                    + "\r\nContent-Type: "@ + "text/plain; version=0.0.4; charset=utf-8"@
                    + "\r\nContent-Length: "@
                &&& page == Page::Health ==> body == "ok\n"@ && head == "HTTP/1.1 "@ + "200 OK"@
                    + "\r\nContent-Type: "@ + "text/plain; charset=utf-8"@
                    + "\r\nContent-Length: "@
                &&& page == Page::NotFound ==> head == "HTTP/1.1 "@ + "404 Not Found"@
                    + "\r\nContent-Type: "@ + "text/plain; charset=utf-8"@
                    + "\r\nContent-Length: "@
                &&& page == Page::BadMethod ==> head == "HTTP/1.1 "@ + "405 Method Not Allowed"@
                    + "\r\nContent-Type: "@ + "text/plain; charset=utf-8"@
                    + "\r\nContent-Length: "@
            },
{
    let body = page_body(page, rendered@);
    crate::text::lemma_encoded_len(body);
    let head = "HTTP/1.1 "@ + status(page) + "\r\nContent-Type: "@ + content_type(page)
        + "\r\nContent-Length: "@;
    assert(r@ =~= head + decimal(vstd::utf8::encode_utf8(body).len())
        + "\r\nConnection: close\r\n\r\n"@ + body);
}

/// What only grows is a counter, everything else a gauge; names say so.
pub proof fn law_kinds_of_metrics(metric: Metric, name: String, kind: String, all: Vec<Metric>)
    requires
        call_ensures(Metric::name, (metric,), name),
        call_ensures(Metric::kind, (metric,), kind),
        call_ensures(metrics, (), all),
    ensures
        all@.contains(metric),
        all@.len() == 13,
        (metric is ProbesSent) || (metric is Responses) || (metric is Timeouts) || (
        metric is TargetProbes) <==> kind@ == "counter"@,
        kind@ == "counter"@ || kind@ == "gauge"@,
        (metric is RttMin) ==> name@ == "ttl_rtt_min_seconds"@,
        (metric is RttMax) ==> name@ == "ttl_rtt_max_seconds"@,
        (metric is RttAvg) ==> name@ == "ttl_rtt_avg_seconds"@,
{
    reveal_strlit("counter");
    reveal_strlit("gauge");
    assert("counter"@[0] != "gauge"@[0]);
    let m = all_metrics();
    assert(m[0] is ProbesSent && m[1] is Responses && m[2] is Timeouts && m[3] is LossRatio && m[4]
        is RttAvg && m[5] is RttMin && m[6] is RttMax && m[7] is RttStddev && m[8] is Responders
        && m[9] is Info && m[10] is Reachable && m[11] is PathHops && m[12] is TargetProbes);
}

} // verus!
