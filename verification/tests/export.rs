//! Exports: tables, reports, differences, metrics and summaries.

use ttl::addr::{IpAddr, Ipv4Addr};
use ttl::config::Config;
use ttl::export::compare::ordered_addresses;
use ttl::export::csv::{escape_csv, export_csv, parse_csv_row};
use ttl::export::diff::{diff_sessions, HopChange, HopSnapshot, SessionDiff};
use ttl::export::diff_text::{host_label, write_diff_text, Palette};
use ttl::export::json::{export_file_name, sanitize_filename};
use ttl::export::report::generate_report_string;
use ttl::export::stream::summary_line;
use ttl::metrics::{escape_label, metrics, render_metrics, response, route, route_bytes, Page};
use ttl::session::{find_session, Address, Figures, Hop, Responder, Session, Target};
use ttl::time::is_date;

fn ip(last: u8) -> IpAddr {
    IpAddr::V4(Ipv4Addr::new(10, 0, 0, last))
}

fn addr(a: u8, b: u8, c: u8, d: u8) -> Address {
    Address {
        ip: IpAddr::V4(Ipv4Addr::new(a, b, c, d)),
        text: format!("{}.{}.{}.{}", a, b, c, d),
    }
}

fn hop_addr(last: u8) -> Address {
    addr(10, 0, 0, last)
}

fn figures(last_ms: Option<f64>, avg_ms: f64) -> Figures {
    Figures {
        last: last_ms.map(|ms| format!("{:.2}", ms)),
        avg: format!("{:.2}", avg_ms),
        min: format!("{:.2}", avg_ms),
        max: format!("{:.2}", avg_ms),
        stddev: "0.00".to_string(),
        jitter: "0.00".to_string(),
        jitter_avg: "0.00".to_string(),
        jitter_max: "0.00".to_string(),
    }
}

fn silent_hop(ttl: u8) -> Hop {
    Hop {
        ttl,
        sent: 0,
        received: 0,
        timeouts: 0,
        loss: "0.0".to_string(),
        responders: vec![],
        primary: None,
    }
}

fn new_session(original: &str, resolved: Address) -> Session {
    Session {
        target: Target {
            original: original.to_string(),
            resolved,
            display: original.to_string(),
            display_is_address: false,
            hostname: None,
        },
        config: Config::default(),
        started_at: 1_700_000_000,
        complete: false,
        dest_ttl: None,
        total_sent: 0,
        hops: (1..=30).map(silent_hop).collect(),
    }
}

fn record(session: &mut Session, ttl: u8, from: Address, ms: f64) {
    let hop = &mut session.hops[ttl as usize - 1];
    hop.sent += 1;
    hop.received += 1;
    if let Some(r) = hop.responders.iter_mut().find(|r| r.address.ip == from.ip) {
        r.received += 1;
        r.figures = figures(Some(ms), ms);
    } else {
        hop.responders.push(Responder {
            address: from.clone(),
            hostname: None,
            received: 1,
            figures: figures(Some(ms), ms),
        });
    }
    let most = hop
        .responders
        .iter()
        .max_by_key(|r| r.received)
        .map(|r| r.address.clone());
    hop.primary = most;
}

fn csv_of(session: &Session) -> String {
    let mut out = String::new();
    export_csv(session, &mut out);
    out
}

/// Finds a column by its name.
fn col_index(header: &str, name: &str) -> usize {
    parse_csv_row(header)
        .iter()
        .position(|c| c == name)
        .unwrap_or_else(|| panic!("column '{}' not found in header: {}", name, header))
}

#[test]
fn test_escape_csv() {
    assert_eq!(escape_csv("simple"), "simple");
    assert_eq!(escape_csv("with,comma"), "\"with,comma\"");
    assert_eq!(escape_csv("with\"quote"), "\"with\"\"quote\"");
}

#[test]
fn test_parse_csv_row() {
    assert_eq!(parse_csv_row("a,b,c"), vec!["a", "b", "c"]);
    assert_eq!(parse_csv_row("a,\"b,c\",d"), vec!["a", "b,c", "d"]);
    assert_eq!(parse_csv_row("a,\"b\"\"c\",d"), vec!["a", "b\"c", "d"]);
    assert_eq!(parse_csv_row(",,"), vec!["", "", ""]);
}

#[test]
fn test_csv_header_column_count() {
    let session = new_session("test.com", addr(1, 2, 3, 4));
    let output = csv_of(&session);
    let header = output.lines().next().unwrap();
    let cols = parse_csv_row(header);
    assert_eq!(cols.len(), 14);
    assert_eq!(cols[0], "ttl");
    assert_eq!(cols[6], "last_ms");
    assert_eq!(cols[12], "jitter_avg_ms");
    assert_eq!(cols[13], "jitter_max_ms");
}

#[test]
fn test_csv_row_field_count_matches_header() {
    let mut session = new_session("test.com", addr(1, 2, 3, 4));
    record(&mut session, 1, hop_addr(1), 5.0);
    record(&mut session, 1, hop_addr(1), 8.0);
    session.dest_ttl = Some(1);
    let output = csv_of(&session);
    let lines: Vec<&str> = output.lines().collect();
    assert_eq!(lines.len(), 2);
    let header_cols = parse_csv_row(lines[0]);
    let row_cols = parse_csv_row(lines[1]);
    assert_eq!(
        header_cols.len(),
        row_cols.len(),
        "row field count must match header"
    );
}

#[test]
fn test_csv_no_response_row_field_count() {
    let mut session = new_session("test.com", addr(1, 2, 3, 4));
    session.hops[0].sent = 2;
    session.dest_ttl = Some(1);
    let output = csv_of(&session);
    let lines: Vec<&str> = output.lines().collect();
    assert_eq!(lines.len(), 2);
    let header_cols = parse_csv_row(lines[0]);
    let row_cols = parse_csv_row(lines[1]);
    assert_eq!(
        header_cols.len(),
        row_cols.len(),
        "no-response row must still have 14 fields"
    );
}

#[test]
fn test_csv_last_ms_value_correctness() {
    let mut session = new_session("test.com", addr(1, 2, 3, 4));
    record(&mut session, 1, hop_addr(1), 5.0);
    record(&mut session, 1, hop_addr(1), 12.0);
    session.dest_ttl = Some(1);
    let output = csv_of(&session);
    let mut lines = output.lines();
    let header = lines.next().unwrap();
    let row = lines.next().unwrap();
    let fields = parse_csv_row(row);
    let last_idx = col_index(header, "last_ms");
    // Last response was 12ms
    let last_val: f64 = fields[last_idx].parse().expect("last_ms should be numeric");
    assert!(
        (last_val - 12.0).abs() < 0.1,
        "last_ms should be ~12.00, got {}",
        last_val
    );
}

#[test]
fn test_csv_last_ms_empty_after_replay() {
    let mut session = new_session("test.com", addr(1, 2, 3, 4));
    record(&mut session, 1, hop_addr(1), 5.0);
    // A session read from a file does not know the latest round trip.
    session.hops[0].responders[0].figures.last = None;
    let output = csv_of(&session);
    let mut lines = output.lines();
    let header = lines.next().unwrap();
    let row = lines.next().unwrap();
    let last_idx = col_index(header, "last_ms");
    let fields = parse_csv_row(row);
    assert_eq!(
        fields[last_idx], "",
        "last_ms should be empty after JSON replay"
    );
}

#[test]
fn test_csv_quoted_hostname() {
    let mut session = new_session("test.com", addr(1, 2, 3, 4));
    record(&mut session, 1, hop_addr(1), 5.0);
    // A host name with comma and quote exercises escaping.
    session.hops[0].responders[0].hostname = Some("host,with\"special".to_string());
    session.dest_ttl = Some(1);
    let output = csv_of(&session);
    let mut lines = output.lines();
    let header = lines.next().unwrap();
    let row = lines.next().unwrap();
    let header_fields = parse_csv_row(header);
    let row_fields = parse_csv_row(row);
    assert_eq!(
        header_fields.len(),
        row_fields.len(),
        "quoted hostname must not break field count"
    );
    let hostname_idx = col_index(header, "hostname");
    assert_eq!(row_fields[hostname_idx], "host,with\"special");
}

#[test]
fn cells_come_back_from_their_row() {
    let values = ["plain", "a,b", "say \"hi\"", "", "two\nlines"];
    let row: Vec<String> = values.iter().map(|v| escape_csv(v)).collect();
    assert_eq!(parse_csv_row(&row.join(",")), values);
}

#[test]
fn test_sanitize_filename_replaces_path_and_control_chars() {
    assert_eq!(
        sanitize_filename("a/b\\c:d*e?f\"g<h>i|j"),
        "a_b_c_d_e_f_g_h_i_j"
    );
    assert_eq!(sanitize_filename("host\u{0085}name"), "host_name");
}

#[test]
fn test_sanitize_filename_handles_windows_invalid_components() {
    assert_eq!(sanitize_filename("CON"), "_CON");
    assert_eq!(sanitize_filename("nul.txt"), "_nul.txt");
    assert_eq!(sanitize_filename("router. "), "router");
    assert_eq!(sanitize_filename("..."), "_");
}

#[test]
fn test_sanitize_filename_caps_length() {
    // ASCII: capped to <= 200 bytes.
    assert!(sanitize_filename(&"a".repeat(500)).len() <= 200);
    // Multibyte: must truncate on a char boundary (no panic) and stay bounded.
    let multibyte = sanitize_filename(&"é".repeat(300));
    assert!(multibyte.len() <= 200);
    assert!(multibyte.chars().all(|c| c == 'é'));
}

#[test]
fn export_files_are_named_after_target_and_time() {
    let session = new_session("a/b", addr(1, 2, 3, 4));
    // 1700000000 is 2023-11-14 22:13:20 UTC.
    assert_eq!(export_file_name(&session), "ttl-a_b-20231114-221320.json");
    assert!(is_date(session.started_at));
    assert!(!is_date(i64::MAX));
}

fn session_with_hops(hops: &[(u8, u8, u64)]) -> Session {
    let mut session = new_session("test.example", hop_addr(99));
    for &(ttl, last, rtt_ms) in hops {
        record(&mut session, ttl, hop_addr(last), rtt_ms as f64);
    }
    session
}

/// Where the average round trip shifted by at least 5 ms and 20 percent.
fn shifted(before: &Session, after: &Session) -> Vec<bool> {
    let avg = |hop: &Hop| {
        hop.primary_stats()
            .map(|s| s.figures.avg.parse::<f64>().unwrap())
    };
    before
        .hops
        .iter()
        .zip(after.hops.iter())
        .map(|(b, a)| match (avg(b), avg(a)) {
            (Some(b), Some(a)) => (a - b).abs() >= 5.0 && (a - b).abs() >= b * 0.2,
            _ => false,
        })
        .collect()
}

fn diff(before: &Session, after: &Session) -> SessionDiff {
    diff_sessions(before, after, "a.json", "b.json", &shifted(before, after))
}

fn ips(addresses: &Vec<Address>) -> Vec<IpAddr> {
    addresses.iter().map(|a| a.ip).collect()
}

#[test]
fn test_diff_no_changes() {
    let a = session_with_hops(&[(1, 1, 5), (2, 2, 10)]);
    let b = session_with_hops(&[(1, 1, 5), (2, 2, 10)]);
    let diff = diff(&a, &b);
    assert_eq!(diff.hops.len(), 2);
    assert!(!diff.has_changes());
    assert!(diff
        .hops
        .iter()
        .all(|h| h.change == HopChange::Unchanged && !h.rtt_significant));
}

#[test]
fn test_diff_path_change() {
    let a = session_with_hops(&[(1, 1, 5), (2, 2, 10)]);
    let b = session_with_hops(&[(1, 1, 5), (2, 3, 10)]);
    let diff = diff(&a, &b);
    assert_eq!(diff.count(HopChange::PathChange), 1);
    let changed = &diff.hops[1];
    assert_eq!(changed.ttl, 2);
    assert_eq!(changed.change, HopChange::PathChange);
    assert_eq!(ips(&changed.responders_added), vec![ip(3)]);
    assert_eq!(ips(&changed.responders_removed), vec![ip(2)]);
}

#[test]
fn test_diff_added_and_lost_hops() {
    let a = session_with_hops(&[(1, 1, 5), (3, 3, 15)]);
    let b = session_with_hops(&[(1, 1, 5), (2, 2, 10)]);
    let diff = diff(&a, &b);
    assert_eq!(diff.count(HopChange::Added), 1);
    assert_eq!(diff.count(HopChange::Lost), 1);
    let added = diff.hops.iter().find(|h| h.ttl == 2).unwrap();
    assert_eq!(added.change, HopChange::Added);
    assert!(added.before.is_none());
    let lost = diff.hops.iter().find(|h| h.ttl == 3).unwrap();
    assert_eq!(lost.change, HopChange::Lost);
    assert!(lost.after.is_none());
}

#[test]
fn test_diff_skips_silent_hops() {
    let a = session_with_hops(&[(1, 1, 5), (5, 5, 25)]);
    let b = session_with_hops(&[(1, 1, 5), (5, 5, 25)]);
    let diff = diff(&a, &b);
    // TTLs 2-4 never responded in either session: not reported
    let ttls: Vec<u8> = diff.hops.iter().map(|h| h.ttl).collect();
    assert_eq!(ttls, vec![1, 5]);
}

#[test]
fn test_diff_rtt_significance() {
    // 10ms -> 100ms: significant (abs 90ms >= 5ms, rel 900% >= 20%)
    let a = session_with_hops(&[(1, 1, 10)]);
    let b = session_with_hops(&[(1, 1, 100)]);
    let first = diff(&a, &b);
    assert!(first.hops[0].rtt_significant);
    let average = |snap: &Option<HopSnapshot>| -> f64 {
        snap.as_ref().unwrap().avg_rtt_ms.as_ref().unwrap().parse().unwrap()
    };
    let delta = average(&first.hops[0].after) - average(&first.hops[0].before);
    assert!((delta - 90.0).abs() < 0.5);
    assert_eq!(first.rtt_shifts(), 1);
    assert!(first.has_changes());

    // 100ms -> 104ms: not significant (abs 4ms < 5ms)
    let a = session_with_hops(&[(1, 1, 100)]);
    let b = session_with_hops(&[(1, 1, 104)]);
    assert!(!diff(&a, &b).hops[0].rtt_significant);

    // 100ms -> 110ms: not significant (rel 10% < 20%)
    let a = session_with_hops(&[(1, 1, 100)]);
    let b = session_with_hops(&[(1, 1, 110)]);
    assert!(!diff(&a, &b).hops[0].rtt_significant);
}

#[test]
fn test_diff_ecmp_responder_set_change() {
    let mut a = session_with_hops(&[(1, 1, 5)]);
    record(&mut a, 1, hop_addr(1), 5.0);
    record(&mut a, 1, hop_addr(7), 6.0);
    let b = session_with_hops(&[(1, 1, 5)]);
    let diff = diff(&a, &b);
    // Primary unchanged but responder 10.0.0.7 disappeared
    assert_eq!(diff.hops[0].change, HopChange::Unchanged);
    assert_eq!(ips(&diff.hops[0].responders_removed), vec![ip(7)]);
    assert!(diff.has_changes());
}

#[test]
fn test_diff_text_output() {
    let a = session_with_hops(&[(1, 1, 5), (2, 2, 10)]);
    let b = session_with_hops(&[(1, 1, 5), (2, 3, 10), (3, 4, 20)]);
    let diff = diff(&a, &b);
    let mut text = String::new();
    write_diff_text(&diff, &mut text, false);
    assert!(text.contains("Trace diff: test.example"));
    assert!(text.contains("[path]"));
    assert!(text.contains("[added]"));
    assert!(text.contains("1 path change(s), 1 hop(s) added, 0 hop(s) lost"));
    // No ANSI escapes when color is off
    assert!(!text.contains('\x1b'));
    let mut coloured = String::new();
    write_diff_text(&diff, &mut coloured, true);
    assert!(coloured.contains("\x1b["));
    assert!(coloured.contains("2023-11-14 22:13:20 UTC"));
}

#[test]
fn swapped_sessions_swap_their_changes() {
    let a = session_with_hops(&[(1, 1, 5), (2, 2, 10)]);
    let b = session_with_hops(&[(1, 3, 5), (3, 4, 20)]);
    let forth = diff(&a, &b);
    let back = diff(&b, &a);
    assert_eq!(forth.count(HopChange::Added), back.count(HopChange::Lost));
    assert_eq!(forth.count(HopChange::Lost), back.count(HopChange::Added));
    assert_eq!(
        ips(&forth.hops[0].responders_added),
        ips(&back.hops[0].responders_removed)
    );
    assert_eq!(forth.hops.len(), back.hops.len());
    for (x, y) in forth.hops.iter().zip(&back.hops) {
        assert_eq!(x.ttl, y.ttl);
        assert_eq!(host_label(&x.before), host_label(&y.after));
        assert_eq!(host_label(&x.after), host_label(&y.before));
        assert_eq!(ips(&x.responders_added), ips(&y.responders_removed));
        assert_eq!(ips(&x.responders_removed), ips(&y.responders_added));
        assert_eq!(x.change == HopChange::Added, y.change == HopChange::Lost);
        assert_eq!(x.change == HopChange::PathChange, y.change == HopChange::PathChange);
    }
}

/// Takes colour codes out of text.
fn without_codes(text: &str) -> String {
    let mut out = String::new();
    let mut rest = text;
    while let Some(at) = rest.find("\x1b[") {
        out.push_str(&rest[..at]);
        let end = rest[at..].find('m').unwrap();
        rest = &rest[at + end + 1..];
    }
    out.push_str(rest);
    out
}

#[test]
fn colours_only_add_codes() {
    let mut a = session_with_hops(&[(1, 1, 5), (2, 2, 10)]);
    let b = session_with_hops(&[(1, 3, 500), (3, 4, 20)]);
    a.hops[0].loss = "\u{7f}0.0".to_string();
    a.hops[1].responders[0].address.text = "10.0.0.2\x1b[7m".to_string();
    a.target.display = "evil\x1b[31m\u{9b}name\n".to_string();
    let diff = diff(&a, &b);
    let mut plain = String::new();
    write_diff_text(&diff, &mut plain, false);
    let mut coloured = String::new();
    write_diff_text(&diff, &mut coloured, true);
    assert_ne!(coloured, plain);
    assert_eq!(without_codes(&coloured), plain);
    assert!(plain.chars().all(|c| c == '\n' || !c.is_control()));
}

#[test]
fn labels_of_snapshots() {
    let session = session_with_hops(&[(1, 1, 5)]);
    let snap = HopSnapshot::from_hop(&session.hops[0]);
    assert_eq!(host_label(&snap), "10.0.0.1");
    assert!(HopSnapshot::from_hop(&session.hops[1]).is_none());
    let palette = Palette { color: true };
    assert_eq!(palette.red("x"), "\x1b[31mx\x1b[0m");
    assert_eq!(Palette { color: false }.red("x"), "x");
}

#[test]
fn responders_are_ordered_by_address() {
    let mut session = session_with_hops(&[]);
    for last in [9, 3, 7, 3] {
        record(&mut session, 1, hop_addr(last), 5.0);
    }
    let ordered = ordered_addresses(&session.hops[0].responders);
    assert_eq!(ips(&ordered), vec![ip(3), ip(7), ip(9)]);
}

#[test]
fn test_summary_line_schema() {
    let mut session = new_session("8.8.8.8", addr(8, 8, 8, 8));
    session.complete = true;
    session.dest_ttl = Some(13);
    session.total_sent = 42;
    let line = summary_line(&session);
    assert_eq!(line.kind, "summary");
    assert!(line.complete);
    assert_eq!(line.dest_ttl, Some(13));
    assert_eq!(line.total_sent, 42);
    assert_eq!(line.hops_responding, 0);
    record(&mut session, 3, hop_addr(1), 5.0);
    assert_eq!(summary_line(&session).hops_responding, 1);
}

fn metrics_session() -> Session {
    let mut session = new_session("dns.example", addr(8, 8, 8, 8));
    record(&mut session, 1, hop_addr(1), 5.0);
    session.hops[0].sent = 2;
    session.hops[0].timeouts = 1;
    session.hops[0].loss = "0.5".to_string();
    session.hops[0].responders[0].figures.avg = "0.005".to_string();
    session.complete = true;
    session.dest_ttl = Some(1);
    session.total_sent = 2;
    session
}

#[test]
fn test_render_metrics_basic() {
    let text = render_metrics(&vec![metrics_session()]);
    assert!(text.contains("# TYPE ttl_probes_sent_total counter"));
    assert!(text.contains(
        "ttl_probes_sent_total{target=\"8.8.8.8\",host=\"dns.example\",ttl=\"1\"} 2"
    ));
    assert!(text.contains(
        "ttl_responses_total{target=\"8.8.8.8\",host=\"dns.example\",ttl=\"1\"} 1"
    ));
    assert!(text.contains(
        "ttl_timeouts_total{target=\"8.8.8.8\",host=\"dns.example\",ttl=\"1\"} 1"
    ));
    assert!(
        text.contains("ttl_loss_ratio{target=\"8.8.8.8\",host=\"dns.example\",ttl=\"1\"} 0.5")
    );
    assert!(text.contains(
        "ttl_rtt_avg_seconds{target=\"8.8.8.8\",host=\"dns.example\",ttl=\"1\"} 0.005"
    ));
    assert!(text.contains("ip=\"10.0.0.1\""));
    assert!(text.contains("ttl_target_reachable{target=\"8.8.8.8\",host=\"dns.example\"} 1"));
    assert!(text.contains("ttl_path_hops{target=\"8.8.8.8\",host=\"dns.example\"} 1"));
    assert!(text.contains("ttl_target_probes_total{target=\"8.8.8.8\",host=\"dns.example\"} 2"));
}

#[test]
fn test_render_metrics_skips_unprobed_hops() {
    let text = render_metrics(&vec![metrics_session()]);
    // Only TTL 1 was probed; no ttl="2" series should exist
    assert!(!text.contains("ttl=\"2\""));
}

#[test]
fn test_label_escaping() {
    assert_eq!(escape_label("plain"), "plain");
    assert_eq!(escape_label("with\"quote"), "with\\\"quote");
    assert_eq!(escape_label("back\\slash"), "back\\\\slash");
    // Control chars stripped by sanitize_display before escaping
    assert_eq!(escape_label("evil\x1b[31m"), "evil[31m");
}

#[test]
fn test_http_endpoints() {
    let rendered = render_metrics(&vec![metrics_session()]);
    let fetch = |path: &'static str| {
        let request = format!("GET {} HTTP/1.1\r\nHost: x\r\n\r\n", path);
        response(route(&request), &rendered)
    };

    let metrics = fetch("/metrics");
    assert!(metrics.starts_with("HTTP/1.1 200 OK"));
    assert!(metrics.contains("ttl_probes_sent_total"));

    let health = fetch("/healthz");
    assert!(health.starts_with("HTTP/1.1 200 OK"));
    assert!(health.contains("ok"));

    let missing = fetch("/nope");
    assert!(missing.starts_with("HTTP/1.1 404"));
}

#[test]
fn other_methods_are_refused() {
    assert_eq!(route("POST /metrics HTTP/1.1"), Page::BadMethod);
    assert!(response(Page::BadMethod, "").starts_with("HTTP/1.1 405"));
    assert_eq!(metrics().len(), 13);
    for metric in metrics() {
        assert!(metric.name().starts_with("ttl_"));
        assert!(metric.kind() == "counter" || metric.kind() == "gauge");
        assert!(!metric.help().is_empty());
    }
}

#[test]
fn reports_list_probed_hops() {
    let mut session = new_session("example.net", addr(1, 2, 3, 4));
    record(&mut session, 1, hop_addr(1), 5.0);
    session.hops[1].sent = 3;
    session.dest_ttl = Some(2);
    let text = generate_report_string(&session);
    assert!(text.starts_with("ttl report for example.net"));
    assert!(text.contains("2023-11-14 22:13:20 UTC"));
    assert!(text.contains("10.0.0.1"));
}

#[test]
fn sessions_are_found_by_address() {
    let sessions = vec![
        new_session("one", addr(1, 1, 1, 1)),
        new_session("two", addr(2, 2, 2, 2)),
    ];
    let found = find_session(&sessions, IpAddr::V4(Ipv4Addr::new(2, 2, 2, 2))).unwrap();
    assert_eq!(found.target.original, "two");
    assert!(find_session(&sessions, ip(1)).is_none());
}

#[test]
fn requests_are_read_as_bytes() {
    assert_eq!(route_bytes(b"GET /metrics HTTP/1.1\r\nX: \xFF\r\n"), Page::Metrics);
    assert_eq!(route_bytes("GET /health HTTP/1.1".as_bytes()), Page::Health);
    assert_eq!(route_bytes(b"\xFF /metrics"), Page::BadMethod);
    assert_eq!(route_bytes(b"GET /metrics\xFF"), Page::NotFound);
    assert_eq!(route_bytes(b""), Page::BadMethod);
}
