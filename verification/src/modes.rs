//! The modes of the program: what each prints, and which one runs.

use crate::addr::IpAddr;
use crate::cli::Args;
use crate::export::csv::{csv, export_csv};
use crate::export::report::{generate_report, report};
use crate::fields::{trim, trimmed};
use crate::prefs::{DisplayMode, Prefs};
use crate::session::{find_session, session_of, Address, Hop, Responder, Session};
use crate::text::{
    chars_of, copy_of, decimal, decimal_string, join, joined, left_aligned, opt_text, push_copy,
    push_decimal, push_left_aligned, push_right_aligned, push_text, right_aligned, same_text, texts,
};
use crate::time::has_date;
use crate::tui::screen::ResolveInfo;
use vstd::prelude::*;

verus! {

/// The largest session file that is read, in bytes.
pub const MAX_SESSION_BYTES: u64 = 10_485_760;

/// How long answers are awaited after the last probe, on top of the probe
/// timeout, in nanoseconds.
pub const SETTLE_EXTRA: u64 = 500_000_000;

/// How often streaming output is looked at, in nanoseconds.
pub const STREAM_INTERVAL: u64 = 100_000_000;

/// What the program is asked to do.
#[derive(Clone, Copy, Debug, PartialEq, Eq, Structural)]
pub enum Mode {
    /// To show a saved session.
    Replay,
    /// To compare two saved sessions.
    Diff,
    /// To trace for some rounds and print the result.
    Batch,
    /// To trace and print what is new.
    Streaming,
    /// To trace in the terminal.
    Interactive,
}

/// What arguments ask for: the first mode whose option is given.
pub fn mode_of(args: &Args) -> (r: Mode)
    ensures
        r == (if args.replay is Some {
            Mode::Replay
        } else if args.diff is Some {
            Mode::Diff
        } else if args.batch() {
            Mode::Batch
        } else if args.headless() {
            Mode::Streaming
        } else {
            Mode::Interactive
        }),
{
    if args.replay.is_some() {
        Mode::Replay
    } else if args.diff.is_some() {
        Mode::Diff
    } else if args.is_batch_mode() {
        Mode::Batch
    } else if args.is_headless() {
        Mode::Streaming
    } else {
        Mode::Interactive
    }
}

/// The warning about a target that is traced already.
pub fn duplicate_warning(name: &str, address: &Address) -> (r: String)
    ensures
        r@ == "Warning: Duplicate target "@ + name@ + " ("@ + address.text@ + "), skipping"@,
{
    let mut out: String = copy_of("Warning: Duplicate target ");
    push_text(&mut out, name);
    push_text(&mut out, " (");
    push_text(&mut out, address.text.as_str());
    push_text(&mut out, "), skipping");
    out
}

/// The warning about two sessions that trace different targets.
pub fn different_targets_warning(before: &Address, after: &Address) -> (r: Option<String>)
    ensures
        opt_text(r) == (if before.ip == after.ip {
            None
        } else {
            Some(
                "Warning: sessions trace different targets ("@ + before.text@ + " vs "@
                    + after.text@ + ")"@,
            )
        }),
{
    if before.ip == after.ip {
        None
    } else {
        let mut out: String = copy_of("Warning: sessions trace different targets (");
        push_text(&mut out, before.text.as_str());
        push_text(&mut out, " vs ");
        push_text(&mut out, after.text.as_str());
        push_text(&mut out, ")");
        Some(out)
    }
}

/// Checks the size of a session file before it is read.
pub fn check_session_size(bytes: u64, path: &str) -> (r: Option<String>)
    ensures
        opt_text(r) == (if bytes > MAX_SESSION_BYTES {
            Some("Session file too large (max 10MB): "@ + path@)
        } else {
            None
        }),
{
    if bytes > MAX_SESSION_BYTES {
        let mut out: String = copy_of("Session file too large (max 10MB): ");
        push_text(&mut out, path);
        Some(out)
    } else {
        None
    }
}

/// The notes about skipped addresses.
pub open spec fn skip_note_texts(info: ResolveInfo) -> Seq<Seq<char>> {
    let first = if info.skipped_ipv6 > 0 {
        Seq::empty().push(
            "Note: "@ + decimal(info.skipped_ipv6 as nat)
                + " IPv6 addresses skipped (using IPv4)"@,
        )
    } else {
        Seq::empty()
    };
    if info.skipped_ipv4 > 0 {
        first.push(
            "Note: "@ + decimal(info.skipped_ipv4 as nat)
                + " IPv4 addresses skipped (using IPv6)"@,
        )
    } else {
        first
    }
}

/// The notes about skipped addresses.
pub fn skip_notes(info: ResolveInfo) -> (r: Vec<String>)
    ensures
        texts(r@) == skip_note_texts(info),
{
    let mut out: Vec<String> = Vec::new();
    assert(texts(out@) =~= Seq::empty());
    if info.skipped_ipv6 > 0 {
        let mut note: String = copy_of("Note: ");
        push_decimal(&mut note, info.skipped_ipv6 as u64);
        push_text(&mut note, " IPv6 addresses skipped (using IPv4)");
        push_copy(&mut out, note.as_str());
    }
    if info.skipped_ipv4 > 0 {
        let mut note: String = copy_of("Note: ");
        push_decimal(&mut note, info.skipped_ipv4 as u64);
        push_text(&mut note, " IPv4 addresses skipped (using IPv6)");
        push_copy(&mut out, note.as_str());
    }
    out
}

/// Sessions that are serialized one by one, as one JSON array on a line.
pub fn json_array(parts: &Vec<String>) -> (r: String)
    ensures
        r@ == "["@ + joined(texts(parts@), ","@) + "]\n"@,
{
    let inner: String = join(parts, ",");
    let mut out: String = copy_of("[");
    push_text(&mut out, inner.as_str());
    push_text(&mut out, "]\n");
    out
}

/// The heading of a target, where there are several.
pub open spec fn target_heading(i: nat, targets: Seq<Address>) -> Seq<char> {
    if targets.len() > 1 {
        "\n=== Target "@ + decimal(i + 1) + "/"@ + decimal(targets.len()) + ": "@
            + targets[i as int].text@ + " ===\n\n"@
    } else {
        Seq::empty()
    }
}

/// What is printed of a target.
pub open spec fn target_output(
    i: nat,
    targets: Seq<Address>,
    sessions: Seq<Session>,
    as_report: bool,
    as_csv: bool,
) -> Seq<char> {
    match session_of(sessions, targets[i as int].ip) {
        Some(session) => target_heading(i, targets) + (if as_report {
            report(session)
        } else if as_csv {
            csv(session)
        } else {
            Seq::empty()
        }),
        None => Seq::empty(),
    }
}

/// What is printed of the first `n` targets.
pub open spec fn batch_output(
    n: nat,
    targets: Seq<Address>,
    sessions: Seq<Session>,
    as_report: bool,
    as_csv: bool,
) -> Seq<char>
    decreases n,
{
    if n == 0 {
        Seq::empty()
    } else {
        batch_output((n - 1) as nat, targets, sessions, as_report, as_csv) + target_output(
            (n - 1) as nat,
            targets,
            sessions,
            as_report,
            as_csv,
        )
    }
}

/// What is printed at the end of a batch, other than JSON: each target that
/// has a session, as a report or as comma-separated values.
pub fn batch_text(
    targets: &Vec<Address>,
    sessions: &Vec<Session>,
    as_report: bool,
    as_csv: bool,
) -> (r: String)
    requires
        forall|i: int| 0 <= i < sessions@.len() ==> has_date((#[trigger] sessions@[i]).started_at),
    ensures
        r@ == batch_output(targets@.len(), targets@, sessions@, as_report, as_csv),
{
    let mut out: String = String::new();
    let count: usize = targets.len();
    let mut i: usize = 0;
    assert(out@ =~= Seq::empty());
    while i < count
        invariant
            i <= count == targets@.len(),
            forall|k: int|
                0 <= k < sessions@.len() ==> has_date((#[trigger] sessions@[k]).started_at),
            out@ == batch_output(i as nat, targets@, sessions@, as_report, as_csv),
        decreases count - i,
    {
        let ghost before = out@;
        match find_session(sessions, targets[i].ip) {
            Some(session) => {
                proof {
                    lemma_found(sessions@, targets@[i as int].ip);
                }
                let mut part: String = String::new();
                assert(part@ =~= Seq::empty());
                if count > 1 {
                    part = copy_of("\n=== Target ");
                    push_decimal(&mut part, (i + 1) as u64);
                    push_text(&mut part, "/");
                    push_decimal(&mut part, count as u64);
                    push_text(&mut part, ": ");
                    push_text(&mut part, targets[i].text.as_str());
                    push_text(&mut part, " ===\n\n");
                }
                assert(part@ == target_heading(i as nat, targets@));
                if as_report {
                    generate_report(session, &mut part);
                } else if as_csv {
                    export_csv(session, &mut part);
                } else {
                    assert(part@ =~= target_heading(i as nat, targets@) + Seq::empty());
                }
                push_text(&mut out, part.as_str());
            },
            None => {
                assert(before + Seq::empty() =~= before);
            },
        }
        i = i + 1;
    }
    out
}

/// A session that is found is one of the sessions.
proof fn lemma_found(sessions: Seq<Session>, ip: IpAddr)
    ensures
        session_of(sessions, ip) matches Some(s) ==> exists|i: int|
            0 <= i < sessions.len() && #[trigger] sessions[i] == s,
    decreases sessions.len(),
{
    if sessions.len() > 0 && sessions[0].target.resolved.ip != ip {
        lemma_found(sessions.skip(1), ip);
        if session_of(sessions, ip) is Some {
            let s = session_of(sessions, ip)->0;
            let i = choose|i: int|
                0 <= i < sessions.skip(1).len() && #[trigger] sessions.skip(1)[i] == s;
            assert(sessions[i + 1] == s);
        }
    }
}

/// The answers that the first `n` hops have got.
pub open spec fn received(hops: Seq<Hop>, n: nat) -> nat
    decreases n,
{
    if n == 0 {
        0
    } else {
        received(hops, (n - 1) as nat) + hops[n - 1].received as nat
    }
}

/// The answers that a session has got.
pub open spec fn total_received(session: Session) -> nat {
    received(session.hops@, session.hops@.len())
}

/// The line of a hop in streaming output: only of hops that have answered.
pub open spec fn stream_line(hop: Hop) -> Seq<char> {
    match hop.shown() {
        Some(stats) => if hop.received > 0 {
            "TTL "@ + right_aligned(decimal(hop.ttl as nat), 2) + "  "@ + left_aligned(
                stats.address.text@,
                15,
            ) + "  "@ + left_aligned(
                match stats.hostname {
                    Some(name) => name@,
                    None => ""@,
                },
                20,
            ) + "  "@ + right_aligned(stats.figures.avg@, 6) + "ms  "@ + right_aligned(hop.loss@, 5)
                + "% loss\n"@
        } else {
            Seq::empty()
        },
        None => Seq::empty(),
    }
}

/// The lines of the first `n` hops.
pub open spec fn stream_lines(hops: Seq<Hop>, n: nat) -> Seq<char>
    decreases n,
{
    if n == 0 {
        Seq::empty()
    } else {
        stream_lines(hops, (n - 1) as nat) + stream_line(hops[n - 1])
    }
}

/// What is printed of a session that has new answers.
pub open spec fn stream_output(session: Session, many: bool) -> Seq<char> {
    (if many {
        "["@ + session.target.resolved.text@ + "]\n"@
    } else {
        Seq::empty()
    }) + stream_lines(session.hops@, session.hops@.len()) + "---\n"@
}

fn stream_line_text(hop: &Hop) -> (r: String)
    ensures
        r@ == stream_line(*hop),
{
    match hop.primary_stats() {
        Some(stats) => if hop.received > 0 {
            let ttl: String = decimal_string(hop.ttl as u64);
            let mut out: String = copy_of("TTL ");
            push_right_aligned(&mut out, ttl.as_str(), 2);
            push_text(&mut out, "  ");
            push_left_aligned(&mut out, stats.address.text.as_str(), 15);
            push_text(&mut out, "  ");
            match &stats.hostname {
                Some(name) => push_left_aligned(&mut out, name.as_str(), 20),
                None => push_left_aligned(&mut out, "", 20),
            }
            push_text(&mut out, "  ");
            push_right_aligned(&mut out, stats.figures.avg.as_str(), 6);
            push_text(&mut out, "ms  ");
            push_right_aligned(&mut out, hop.loss.as_str(), 5);
            push_text(&mut out, "% loss\n");
            out
        } else {
            let none: String = String::new();
            assert(none@ =~= Seq::empty());
            none
        },
        None => {
            let none: String = String::new();
            assert(none@ =~= Seq::empty());
            none
        },
    }
}

/// What streaming prints of a session: nothing unless it has more answers than
/// the last time something was printed of it. The number of answers is
/// remembered with what is printed.
pub fn stream_update(session: &Session, many: bool, last: u64) -> (r: Option<(String, u64)>)
    requires
        total_received(*session) <= u64::MAX,
    ensures
        total_received(*session) > last ==> (r matches Some(x) && x.0@ == stream_output(
            *session,
            many,
        ) && x.1 == total_received(*session)),
        total_received(*session) <= last ==> r is None,
{
    let mut total: u64 = 0;
    let mut i: usize = 0;
    while i < session.hops.len()
        invariant
            i <= session.hops.len(),
            total == received(session.hops@, i as nat),
            total_received(*session) <= u64::MAX,
        decreases session.hops.len() - i,
    {
        proof {
            lemma_received_grows(session.hops@, (i + 1) as nat, session.hops@.len());
        }
        total = total + session.hops[i].received;
        i = i + 1;
    }
    if total <= last {
        return None;
    }
    let mut out: String = String::new();
    assert(out@ =~= Seq::empty());
    if many {
        out = copy_of("[");
        push_text(&mut out, session.target.resolved.text.as_str());
        push_text(&mut out, "]\n");
    }
    let ghost top = out@;
    let mut k: usize = 0;
    assert(top + stream_lines(session.hops@, 0) =~= top);
    while k < session.hops.len()
        invariant
            k <= session.hops.len(),
            out@ == top + stream_lines(session.hops@, k as nat),
        decreases session.hops.len() - k,
    {
        let line: String = stream_line_text(&session.hops[k]);
        push_text(&mut out, line.as_str());
        assert(out@ =~= top + stream_lines(session.hops@, (k + 1) as nat));
        k = k + 1;
    }
    push_text(&mut out, "---\n");
    Some((out, total))
}

proof fn lemma_received_grows(hops: Seq<Hop>, a: nat, b: nat)
    requires
        a <= b,
    ensures
        received(hops, a) <= received(hops, b),
    decreases b,
{
    if a < b {
        lemma_received_grows(hops, a, (b - 1) as nat);
    }
}

/// How many answers a target had when something was last printed of it.
#[derive(Clone, Copy, Debug, PartialEq, Eq, Structural)]
pub struct Seen {
    pub ip: IpAddr,
    pub answers: u64,
}

/// The answers that are remembered of a target: none at first.
pub open spec fn seen_of(seen: Seq<Seen>, ip: IpAddr) -> u64
    decreases seen.len(),
{
    if seen.len() == 0 {
        0
    } else if seen[0].ip == ip {
        seen[0].answers
    } else {
        seen_of(seen.skip(1), ip)
    }
}

/// Whether a target has more answers than are remembered of it.
pub open spec fn has_news(sessions: Seq<Session>, ip: IpAddr, before: u64) -> bool {
    session_of(sessions, ip) matches Some(session) && total_received(session) > before
}

/// The answers that are remembered of a target after the first `n` targets
/// have been looked at.
pub open spec fn seen_after(
    n: nat,
    targets: Seq<Address>,
    sessions: Seq<Session>,
    seen: Seq<Seen>,
    ip: IpAddr,
) -> u64
    decreases n,
{
    if n == 0 {
        seen_of(seen, ip)
    } else {
        let before = seen_after((n - 1) as nat, targets, sessions, seen, ip);
        if targets[n - 1].ip == ip && has_news(sessions, ip, before) {
            total_received(session_of(sessions, ip)->0) as u64
        } else {
            before
        }
    }
}

/// What is printed of the first `n` targets: those that have news.
pub open spec fn round_output(
    n: nat,
    targets: Seq<Address>,
    sessions: Seq<Session>,
    seen: Seq<Seen>,
) -> Seq<char>
    decreases n,
{
    if n == 0 {
        Seq::empty()
    } else {
        let m = (n - 1) as nat;
        let ip = targets[m as int].ip;
        round_output(m, targets, sessions, seen) + (if has_news(
            sessions,
            ip,
            seen_after(m, targets, sessions, seen, ip),
        ) {
            stream_output(session_of(sessions, ip)->0, targets.len() > 1)
        } else {
            Seq::empty()
        })
    }
}

/// The answers that are remembered of a target.
fn answers_seen(seen: &Vec<Seen>, ip: IpAddr) -> (r: u64)
    ensures
        r == seen_of(seen@, ip),
{
    let mut i: usize = 0;
    assert(seen@.skip(0) =~= seen@);
    while i < seen.len()
        invariant
            i <= seen.len(),
            seen_of(seen@.skip(i as int), ip) == seen_of(seen@, ip),
        decreases seen.len() - i,
    {
        if seen[i].ip == ip {
            return seen[i].answers;
        }
        assert(seen@.skip(i as int).skip(1) =~= seen@.skip(i + 1));
        i = i + 1;
    }
    0
}

/// A new number takes the place of the one that is remembered.
proof fn lemma_seen_update(seen: Seq<Seen>, k: int, entry: Seen)
    requires
        0 <= k < seen.len(),
        seen[k].ip == entry.ip,
        forall|j: int| 0 <= j < k ==> (#[trigger] seen[j]).ip != entry.ip,
    ensures
        forall|ip: IpAddr| #[trigger]
            seen_of(seen.update(k, entry), ip) == (if ip == entry.ip {
                entry.answers
            } else {
                seen_of(seen, ip)
            }),
    decreases k,
{
    let after = seen.update(k, entry);
    if k == 0 {
        assert(after.skip(1) =~= seen.skip(1));
    } else {
        assert(after.skip(1) =~= seen.skip(1).update(k - 1, entry));
        assert forall|j: int| 0 <= j < k - 1 implies (#[trigger] seen.skip(1)[j]).ip
            != entry.ip by {
            assert(seen[j + 1].ip != entry.ip);
        }
        lemma_seen_update(seen.skip(1), k - 1, entry);
        assert forall|ip: IpAddr| #[trigger] seen_of(after, ip) == (if ip == entry.ip {
            entry.answers
        } else {
            seen_of(seen, ip)
        }) by {
            assert(seen[0].ip != entry.ip && after[0] == seen[0]);
            assert(seen_of(after.skip(1), ip) == seen_of(
                seen.skip(1).update(k - 1, entry),
                ip,
            ));
        }
    }
}

/// A target that nothing is remembered of is added at the end.
proof fn lemma_seen_push(seen: Seq<Seen>, entry: Seen)
    requires
        forall|j: int| 0 <= j < seen.len() ==> (#[trigger] seen[j]).ip != entry.ip,
    ensures
        forall|ip: IpAddr| #[trigger]
            seen_of(seen.push(entry), ip) == (if ip == entry.ip {
                entry.answers
            } else {
                seen_of(seen, ip)
            }),
    decreases seen.len(),
{
    let after = seen.push(entry);
    if seen.len() == 0 {
        assert(after.skip(1) =~= seen);
    } else {
        assert(after.skip(1) =~= seen.skip(1).push(entry));
        assert forall|j: int| 0 <= j < seen.skip(1).len() implies (#[trigger] seen.skip(1)[j]).ip
            != entry.ip by {
            assert(seen[j + 1].ip != entry.ip);
        }
        lemma_seen_push(seen.skip(1), entry);
        assert forall|ip: IpAddr| #[trigger] seen_of(after, ip) == (if ip == entry.ip {
            entry.answers
        } else {
            seen_of(seen, ip)
        }) by {
            assert(seen[0].ip != entry.ip && after[0] == seen[0]);
            assert(seen_of(after.skip(1), ip) == seen_of(seen.skip(1).push(entry), ip));
        }
    }
}

/// Remembers the answers of a target.
fn set_seen(seen: &mut Vec<Seen>, entry: Seen)
    ensures
        forall|ip: IpAddr| #[trigger]
            seen_of(final(seen)@, ip) == (if ip == entry.ip {
                entry.answers
            } else {
                seen_of(old(seen)@, ip)
            }),
{
    let mut i: usize = 0;
    while i < seen.len()
        invariant
            i <= seen.len(),
            seen@ == old(seen)@,
            forall|j: int| 0 <= j < i ==> (#[trigger] seen@[j]).ip != entry.ip,
        decreases seen.len() - i,
    {
        if seen[i].ip == entry.ip {
            proof {
                lemma_seen_update(seen@, i as int, entry);
            }
            seen.set(i, entry);
            return;
        }
        i = i + 1;
    }
    proof {
        lemma_seen_push(seen@, entry);
    }
    seen.push(entry);
}

/// What a tick of streaming prints: each target that has more answers than
/// the last time something was printed of it. The answers are remembered.
pub fn stream_round(targets: &Vec<Address>, sessions: &Vec<Session>, seen: &mut Vec<Seen>) -> (r:
    String)
    requires
        forall|i: int|
            0 <= i < sessions@.len() ==> total_received(#[trigger] sessions@[i]) <= u64::MAX,
    ensures
        r@ == round_output(targets@.len(), targets@, sessions@, old(seen)@),
        forall|ip: IpAddr| #[trigger]
            seen_of(final(seen)@, ip) == seen_after(
                targets@.len(),
                targets@,
                sessions@,
                old(seen)@,
                ip,
            ),
{
    let many: bool = targets.len() > 1;
    let mut out: String = String::new();
    let mut i: usize = 0;
    assert(out@ =~= Seq::empty());
    while i < targets.len()
        invariant
            i <= targets.len(),
            many == (targets@.len() > 1),
            forall|k: int|
                0 <= k < sessions@.len() ==> total_received(#[trigger] sessions@[k]) <= u64::MAX,
            out@ == round_output(i as nat, targets@, sessions@, old(seen)@),
            forall|ip: IpAddr| #[trigger]
                seen_of(seen@, ip) == seen_after(i as nat, targets@, sessions@, old(seen)@, ip),
        decreases targets.len() - i,
    {
        let ip: IpAddr = targets[i].ip;
        let ghost before = out@;
        assert(before + Seq::<char>::empty() =~= before);
        match find_session(sessions, ip) {
            Some(session) => {
                proof {
                    lemma_found(sessions@, ip);
                }
                match stream_update(session, many, answers_seen(seen, ip)) {
                    Some((text, answers)) => {
                        push_text(&mut out, text.as_str());
                        set_seen(seen, Seen { ip, answers });
                    },
                    None => {},
                }
            },
            None => {},
        }
        i = i + 1;
    }
    out
}

/// Once the answers of a target have been looked at, all of them are
/// remembered.
proof fn lemma_all_seen(
    n: nat,
    targets: Seq<Address>,
    sessions: Seq<Session>,
    seen: Seq<Seen>,
    i: int,
)
    requires
        0 <= i < n,
        forall|k: int|
            0 <= k < sessions.len() ==> total_received(#[trigger] sessions[k]) <= u64::MAX,
    ensures
        !has_news(
            sessions,
            targets[i].ip,
            seen_after(n, targets, sessions, seen, targets[i].ip),
        ),
    decreases n,
{
    lemma_found(sessions, targets[i].ip);
    if i < n - 1 {
        lemma_all_seen((n - 1) as nat, targets, sessions, seen, i);
    }
}

/// Without news nothing is printed of the first `n` targets, and what is
/// remembered stays.
proof fn lemma_no_news(n: nat, targets: Seq<Address>, sessions: Seq<Session>, seen: Seq<Seen>)
    requires
        n <= targets.len(),
        forall|i: int|
            0 <= i < targets.len() ==> !has_news(
                sessions,
                (#[trigger] targets[i]).ip,
                seen_of(seen, targets[i].ip),
            ),
    ensures
        round_output(n, targets, sessions, seen) == Seq::<char>::empty(),
        forall|ip: IpAddr| #[trigger]
            seen_after(n, targets, sessions, seen, ip) == seen_of(seen, ip),
    decreases n,
{
    if n > 0 {
        lemma_no_news((n - 1) as nat, targets, sessions, seen);
        assert(!has_news(sessions, targets[n - 1].ip, seen_of(seen, targets[n - 1].ip)));
        assert forall|ip: IpAddr| #[trigger]
            seen_after(n, targets, sessions, seen, ip) == seen_of(seen, ip) by {
            assert(seen_after((n - 1) as nat, targets, sessions, seen, ip) == seen_of(seen, ip));
        }
    }
}

/// Nothing is printed twice: where no answer has come since a round of
/// streaming, the next round prints nothing and remembers the same.
pub proof fn law_nothing_is_printed_twice(
    targets: Seq<Address>,
    sessions: Seq<Session>,
    first: Seq<Seen>,
    next: Seq<Seen>,
)
    requires
        forall|i: int|
            0 <= i < sessions.len() ==> total_received(#[trigger] sessions[i]) <= u64::MAX,
        forall|ip: IpAddr| #[trigger]
            seen_of(next, ip) == seen_after(targets.len(), targets, sessions, first, ip),
    ensures
        round_output(targets.len(), targets, sessions, next) == Seq::<char>::empty(),
        forall|ip: IpAddr| #[trigger]
            seen_after(targets.len(), targets, sessions, next, ip) == seen_of(next, ip),
{
    assert forall|i: int| 0 <= i < targets.len() implies !has_news(
        sessions,
        (#[trigger] targets[i]).ip,
        seen_of(next, targets[i].ip),
    ) by {
        lemma_all_seen(targets.len(), targets, sessions, first, i);
    }
    lemma_no_news(targets.len(), targets, sessions, next);
}

/// What a tick of streaming output does.
#[derive(Clone, Copy, Debug, PartialEq, Eq, Structural)]
pub enum StreamTick {
    /// Emits events as JSON lines.
    Events,
    /// Nothing: results are read elsewhere.
    Quiet,
    /// Prints what is new.
    Print,
}

/// What a tick of streaming output does.
pub fn stream_tick(stream_json: bool, daemon: bool) -> (r: StreamTick)
    ensures
        r == (if stream_json {
            StreamTick::Events
        } else if daemon {
            StreamTick::Quiet
        } else {
            StreamTick::Print
        }),
{
    if stream_json {
        StreamTick::Events
    } else if daemon {
        StreamTick::Quiet
    } else {
        StreamTick::Print
    }
}

/// The warning about a daemon whose results nobody can see.
pub fn daemon_warning(daemon: bool, stream_json: bool, exporter: bool) -> (r: Option<String>)
    ensures
        opt_text(r) == (if daemon && !stream_json && !exporter {
            Some(
                "Warning: --daemon without --prometheus or --stream-json produces no output; probing continues but results are not observable."@,
            )
        } else {
            None
        }),
{
    if daemon && !stream_json && !exporter {
        Some(
            copy_of(
                "Warning: --daemon without --prometheus or --stream-json produces no output; probing continues but results are not observable.",
            ),
        )
    } else {
        None
    }
}

/// How a saved session is shown.
#[derive(Clone, Copy, Debug, PartialEq, Eq, Structural)]
pub enum ReplayView {
    Json,
    Csv,
    Report,
    /// Played back from its events.
    Animated,
    /// In its final state; the user asked for more than it holds.
    StillWithNote,
    /// In its final state.
    Still,
}

/// How a saved session is shown.
pub fn replay_view(
    json: bool,
    csv: bool,
    report: bool,
    no_tui: bool,
    animate: bool,
    has_events: bool,
) -> (r: ReplayView)
    ensures
        r == (if json {
            ReplayView::Json
        } else if csv {
            ReplayView::Csv
        } else if report || no_tui {
            ReplayView::Report
        } else if animate && has_events {
            ReplayView::Animated
        } else if animate {
            ReplayView::StillWithNote
        } else {
            ReplayView::Still
        }),
{
    if json {
        ReplayView::Json
    } else if csv {
        ReplayView::Csv
    } else if report || no_tui {
        ReplayView::Report
    } else if animate && has_events {
        ReplayView::Animated
    } else if animate {
        ReplayView::StillWithNote
    } else {
        ReplayView::Still
    }
}

/// Preferences with what the command line overrides: a theme other than the
/// default one, and wide columns.
pub fn override_prefs(prefs: Prefs, theme: &str, wide: bool) -> (r: Prefs)
    ensures
        opt_text(r.theme) == (if theme@ != "default"@ {
            Some(theme@)
        } else {
            opt_text(prefs.theme)
        }),
        r.display_mode == (if wide {
            Some(DisplayMode::Wide)
        } else {
            prefs.display_mode
        }),
        r.peeringdb_api_key == prefs.peeringdb_api_key,
        r.no_update_check == prefs.no_update_check,
{
    let mut out: Prefs = prefs;
    if !same_text(theme, "default") {
        out.theme = Some(copy_of(theme));
    }
    if wide {
        out.display_mode = Some(DisplayMode::Wide);
    }
    out
}

/// Whether a value switches the trace of the shutdown on: `1`, `true`, `yes`
/// or `on`, in any case.
pub open spec fn switched_on(value: Seq<char>) -> bool {
    let v = crate::export::json::upper_case(trimmed(value));
    v == "1"@ || v == "TRUE"@ || v == "YES"@ || v == "ON"@
}

/// Whether the trace of the shutdown is on.
pub fn shutdown_trace_enabled(value: &Option<String>) -> (r: bool)
    ensures
        r == (*value matches Some(v) && switched_on(v@)),
{
    match value {
        Some(v) => {
            let t: String = crate::export::json::to_upper(&trim(&chars_of(v.as_str())));
            same_text(t.as_str(), "1") || same_text(t.as_str(), "TRUE") || same_text(
                t.as_str(),
                "YES",
            ) || same_text(t.as_str(), "ON")
        },
        None => false,
    }
}

/// What a signal does.
#[derive(Clone, Debug)]
pub struct SignalResponse {
    /// Whether the program ends at once; else it shuts down.
    pub force_exit: bool,
    /// What the user is told.
    pub text: String,
}

/// What a signal does: the first one starts the shutdown, another one ends
/// the program at once.
pub fn on_signal(shutting_down: bool, signal: &str) -> (r: SignalResponse)
    ensures
        r.force_exit == shutting_down,
        r.text@ == signal@ + (if shutting_down {
            " during shutdown, forcing exit."@
        } else {
            " received, shutting down (repeat to force exit)."@
        }),
{
    let mut text: String = copy_of(signal);
    push_text(
        &mut text,
        if shutting_down {
            " during shutdown, forcing exit."
        } else {
            " received, shutting down (repeat to force exit)."
        },
    );
    SignalResponse { force_exit: shutting_down, text }
}

/// Replaying goes before comparing, comparing before writing at the end, and
/// that before running without a screen.
pub proof fn law_mode_by_flags(args: &Args, r: Mode)
    requires
        call_ensures(mode_of, (args,), r),
    ensures
        (r is Replay) <==> args.replay is Some,
        (r is Diff) <==> args.replay is None && args.diff is Some,
        (r is Batch) <==> args.replay is None && args.diff is None && (args.json || args.csv
            || args.report),
        (r is Interactive) <==> args.replay is None && args.diff is None && !args.json && !args.csv
            && !args.report && !args.no_tui && !args.stream_json && !args.daemon
            && args.prometheus is None,
{
}

/// Sessions of different targets are compared with a warning, and a file of
/// more than ten mebibytes is not read.
pub proof fn law_doubtful_sessions(
    before: &Address,
    after: &Address,
    warned: Option<String>,
    bytes: u64,
    path: &str,
    refused: Option<String>,
)
    requires
        call_ensures(different_targets_warning, (before, after), warned),
        call_ensures(check_session_size, (bytes, path), refused),
    ensures
        warned is None <==> before.ip == after.ip,
        refused is None <==> bytes <= 10 * 1024 * 1024,
{
}

/// What was left out for its family is said, of each family by its number.
pub proof fn law_skipped_addresses_told(info: ResolveInfo, r: Vec<String>)
    requires
        call_ensures(skip_notes, (info,), r),
    ensures
        r@.len() == (if info.skipped_ipv4 > 0 {
            1int
        } else {
            0
        }) + (if info.skipped_ipv6 > 0 {
            1int
        } else {
            0
        }),
        info.skipped_ipv6 > 0 ==> r@[0]@ == "Note: "@ + decimal(info.skipped_ipv6 as nat)
            + " IPv6 addresses skipped (using IPv4)"@,
        info.skipped_ipv4 > 0 ==> r@[r@.len() - 1]@ == "Note: "@ + decimal(
            info.skipped_ipv4 as nat,
        ) + " IPv4 addresses skipped (using IPv6)"@,
{
    let t = texts(r@);
    assert(t.len() == r@.len());
    if info.skipped_ipv6 > 0 {
        assert(t[0] == r@[0]@);
    }
    if info.skipped_ipv4 > 0 {
        assert(t[t.len() - 1] == r@[r@.len() - 1]@);
    }
}

/// The answers of all hops, summed.
pub open spec fn answers_of(hops: Seq<Hop>) -> int {
    hops.fold_left(0int, |n: int, hop: Hop| n + hop.received)
}

/// What has been received is counted over all hops.
proof fn lemma_answers(hops: Seq<Hop>, n: nat)
    requires
        n <= hops.len(),
    ensures
        received(hops, n) == answers_of(hops.take(n as int)),
    decreases n,
{
    if n == 0 {
        assert(hops.take(0) =~= Seq::empty());
    } else {
        lemma_answers(hops, (n - 1) as nat);
        assert(hops.take(n as int).drop_last() =~= hops.take(n - 1));
        assert(hops.take(n as int).last() == hops[n - 1]);
    }
}

/// A session is printed only when more answers have come than at the last
/// time, and how many there are now is remembered. One of several is printed
/// under its address.
pub proof fn law_printed_when_answers_come(
    session: &Session,
    many: bool,
    last: u64,
    r: Option<(String, u64)>,
)
    requires
        call_ensures(stream_update, (session, many, last), r),
    ensures
        r is Some <==> answers_of(session.hops@) > last,
        r matches Some(x) ==> x.1 == answers_of(session.hops@) && x.0@ == (if many {
            "["@ + session.target.resolved.text@ + "]\n"@
        } else {
            Seq::empty()
        }) + stream_lines(session.hops@, session.hops@.len()) + "---\n"@,
{
    lemma_answers(session.hops@, session.hops@.len());
    assert(session.hops@.take(session.hops@.len() as int) =~= session.hops@);
}

/// A hop that has not answered has no line; one that has is printed with its
/// TTL, address, name, average and loss, in this order.
pub proof fn law_line_of_answering_hop(hop: Hop)
    ensures
        hop.received == 0 ==> stream_line(hop) == Seq::<char>::empty(),
        hop.received > 0 ==> (hop.shown() matches Some(s) ==> stream_line(hop) == "TTL "@
            + right_aligned(decimal(hop.ttl as nat), 2) + "  "@ + left_aligned(s.address.text@, 15)
            + "  "@ + left_aligned(
            match s.hostname {
                Some(name) => name@,
                None => ""@,
            },
            20,
        ) + "  "@ + right_aligned(s.figures.avg@, 6) + "ms  "@ + right_aligned(hop.loss@, 5)
            + "% loss\n"@),
{
}

/// While streaming, events go before silence, and silence before printing;
/// who would hear nothing is warned.
pub proof fn law_what_a_stream_prints(
    stream_json: bool,
    daemon: bool,
    exporter: bool,
    r: StreamTick,
    warned: Option<String>,
)
    requires
        call_ensures(stream_tick, (stream_json, daemon), r),
        call_ensures(daemon_warning, (daemon, stream_json, exporter), warned),
    ensures
        (r is Events) <==> stream_json,
        (r is Print) <==> !stream_json && !daemon,
        warned is Some <==> (r is Quiet) && !exporter,
{
}

/// A replay is written if that was asked for, else shown, moving only if
/// there is something to move.
pub proof fn law_replay_as_asked(
    json: bool,
    csv: bool,
    report: bool,
    no_tui: bool,
    animate: bool,
    has_events: bool,
    r: ReplayView,
)
    requires
        call_ensures(replay_view, (json, csv, report, no_tui, animate, has_events), r),
    ensures
        (r is Json) <==> json,
        (r is Csv) <==> csv && !json,
        (r is Report) <==> !json && !csv && (report || no_tui),
        (r is Animated) ==> animate && has_events,
        (r is StillWithNote) ==> animate && !has_events,
        (r is Still) ==> !animate,
        (r is Animated) || (r is StillWithNote) || (r is Still) ==> !json && !csv && !report
            && !no_tui,
{
}

/// What the command line says goes before what was preferred.
pub proof fn law_command_line_before_preferences(
    prefs: Prefs,
    theme: &str,
    wide: bool,
    r: Prefs,
)
    requires
        call_ensures(override_prefs, (prefs, theme, wide), r),
    ensures
        theme@ != "default"@ ==> (r.theme matches Some(t) && t@ == theme@),
        theme@ == "default"@ ==> opt_text(r.theme) == opt_text(prefs.theme),
        wide ==> r.display_mode == Some(DisplayMode::Wide),
        !wide ==> r.display_mode == prefs.display_mode,
        r.peeringdb_api_key == prefs.peeringdb_api_key,
        r.no_update_check == prefs.no_update_check,
{
}

/// The first signal ends the program in order, the next at once.
pub proof fn law_second_signal_forces(
    signal: &str,
    first: SignalResponse,
    second: SignalResponse,
)
    requires
        call_ensures(on_signal, (false, signal), first),
        call_ensures(on_signal, (true, signal), second),
    ensures
        !first.force_exit,
        second.force_exit,
{
}

/// The output for several targets is that of each, in their order, under a
/// heading that counts them.
pub proof fn law_batch_in_order(
    targets: Seq<Address>,
    sessions: Seq<Session>,
    as_report: bool,
    as_csv: bool,
    n: nat,
    session: Session,
)
    requires
        1 < targets.len(),
        n < targets.len(),
        session_of(sessions, targets[n as int].ip) == Some(session),
    ensures
        batch_output(n + 1, targets, sessions, as_report, as_csv) == batch_output(
            n,
            targets,
            sessions,
            as_report,
            as_csv,
        ) + ("\n=== Target "@ + decimal(n + 1) + "/"@ + decimal(targets.len()) + ": "@
            + targets[n as int].text@ + " ===\n\n"@ + (if as_report {
            report(session)
        } else if as_csv {
            csv(session)
        } else {
            Seq::empty()
        })),
{
}

/// Several documents make one array, in their order.
pub proof fn law_array_of_documents(parts: &Vec<String>, r: String)
    requires
        call_ensures(json_array, (parts,), r),
    ensures
        parts@.len() == 0 ==> r@ == "["@ + "]\n"@,
        parts@.len() == 1 ==> r@ == "["@ + parts@[0]@ + "]\n"@,
        parts@.len() == 2 ==> r@ == "["@ + (parts@[0]@ + ","@ + parts@[1]@) + "]\n"@,
{
    let t = texts(parts@);
    reveal_with_fuel(joined, 3);
    if parts@.len() == 0 {
        assert("["@ + Seq::<char>::empty() =~= "["@);
    } else if parts@.len() == 2 {
        assert(t.skip(1)[0] == t[1]);
    }
}

/// One target is written without a heading, as a report if that was asked
/// for, else as comma-separated values if that was.
pub proof fn law_single_target_written(
    targets: &Vec<Address>,
    sessions: &Vec<Session>,
    as_report: bool,
    as_csv: bool,
    r: String,
)
    requires
        call_ensures(batch_text, (targets, sessions, as_report, as_csv), r),
        targets@.len() == 1,
    ensures
        session_of(sessions@, targets@[0].ip) matches Some(s) ==> r@ == (if as_report {
            report(s)
        } else if as_csv {
            csv(s)
        } else {
            Seq::empty()
        }),
        session_of(sessions@, targets@[0].ip) is None ==> r@ == Seq::<char>::empty(),
{
    reveal_with_fuel(batch_output, 2);
    let out = target_output(0, targets@, sessions@, as_report, as_csv);
    assert(Seq::<char>::empty() + out =~= out);
    if let Some(s) = session_of(sessions@, targets@[0].ip) {
        let body = if as_report {
            report(s)
        } else if as_csv {
            csv(s)
        } else {
            Seq::empty()
        };
        assert(Seq::<char>::empty() + body =~= body);
    }
}

/// Of one target that is streamed, the first print shows what there is, and
/// the next only if more has come.
pub proof fn law_stream_of_one_target(
    targets: &Vec<Address>,
    sessions: &Vec<Session>,
    seen: &mut Vec<Seen>,
    r: String,
    session: Session,
)
    requires
        call_ensures(stream_round, (targets, sessions, seen), r),
        targets@.len() == 1,
        session_of(sessions@, targets@[0].ip) == Some(session),
        answers_of(session.hops@) <= u64::MAX,
        old(seen)@.len() == 0,
    ensures
        answers_of(session.hops@) == 0 ==> r@ == Seq::<char>::empty(),
        answers_of(session.hops@) > 0 ==> r@ == stream_lines(session.hops@, session.hops@.len())
            + "---\n"@,
        seen_of(final(seen)@, targets@[0].ip) == answers_of(session.hops@),
{
    lemma_answers(session.hops@, session.hops@.len());
    assert(session.hops@.take(session.hops@.len() as int) =~= session.hops@);
    reveal_with_fuel(round_output, 2);
    reveal_with_fuel(seen_after, 2);
    let out = stream_output(session, false);
    assert(Seq::<char>::empty() + out =~= out);
    let lines = stream_lines(session.hops@, session.hops@.len());
    assert(Seq::<char>::empty() + lines + "---\n"@ =~= lines + "---\n"@);
    assert(Seq::<char>::empty() + Seq::<char>::empty() =~= Seq::<char>::empty());
}

/// Tracing the shutdown is switched on by the words that mean yes, however
/// they are written, and by no others.
pub proof fn law_shutdown_traced(value: &Option<String>, r: bool)
    requires
        call_ensures(shutdown_trace_enabled, (value,), r),
    ensures
        *value is None ==> !r,
        (value matches Some(v) && v@ == "1"@) ==> r,
        (value matches Some(v) && v@ == "0"@) ==> !r,
        (value matches Some(v) && v@ == "on"@) ==> r,
{
    reveal_strlit("1");
    reveal_strlit("0");
    reveal_strlit("on");
    reveal_strlit("ON");
    reveal_strlit("TRUE");
    reveal_strlit("YES");
    assert(trimmed("1"@) == "1"@);
    assert(trimmed("0"@) == "0"@);
    assert(trimmed("on"@) == "on"@);
    assert(crate::export::json::upper_case("1"@) =~= "1"@);
    assert(crate::export::json::upper_case("0"@) =~= "0"@);
    assert(crate::export::json::upper_case("on"@) =~= "ON"@);
    assert("0"@[0] != "1"@[0]);
}

/// Where there are several targets each is headed by its number, from 1, and
/// their count.
pub proof fn law_targets_headed(targets: Seq<Address>, i: nat)
    requires
        i < targets.len(),
        targets.len() > 1,
    ensures
        target_heading(i, targets) == "\n=== Target "@ + decimal(i + 1) + "/"@ + decimal(
            targets.len(),
        ) + ": "@ + targets[i as int].text@ + " ===\n\n"@,
{
}

/// The line of a hop that answered starts with its TTL and the address that
/// is shown of it; in front of the milliseconds stands the average, in front
/// of the percentage the loss. A hop that has not answered has no line.
pub proof fn law_stream_line_tells(hop: Hop, stats: Responder)
    requires
        hop.shown() == Some(stats),
    ensures
        hop.received == 0 ==> stream_line(hop) == Seq::<char>::empty(),
        hop.received > 0 ==> {
            let line = stream_line(hop);
            &&& exists|rest: Seq<char>| line == #[trigger] ("TTL "@ + right_aligned(
                decimal(hop.ttl as nat),
                2,
            ) + "  "@ + left_aligned(stats.address.text@, 15) + rest)
            &&& exists|front: Seq<char>| line == #[trigger] (front + right_aligned(
                stats.figures.avg@,
                6,
            ) + "ms  "@ + right_aligned(hop.loss@, 5) + "% loss\n"@)
        },
{
    if hop.received > 0 {
        let line = stream_line(hop);
        let name = match stats.hostname {
            Some(name) => name@,
            None => ""@,
        };
        let start = "TTL "@ + right_aligned(decimal(hop.ttl as nat), 2) + "  "@ + left_aligned(
            stats.address.text@,
            15,
        );
        let middle = "  "@ + left_aligned(name, 20) + "  "@;
        let end = right_aligned(stats.figures.avg@, 6) + "ms  "@ + right_aligned(hop.loss@, 5)
            + "% loss\n"@;
        assert(line =~= start + (middle + end));
        assert(line =~= (start + middle) + right_aligned(stats.figures.avg@, 6) + "ms  "@
            + right_aligned(hop.loss@, 5) + "% loss\n"@);
    }
}

/// The lines of the hops stand in the order of the hops.
pub proof fn law_stream_in_order(hops: Seq<Hop>, i: int, n: nat) -> (rest: Seq<char>)
    requires
        0 <= i < n <= hops.len(),
    ensures
        stream_lines(hops, n) == stream_lines(hops, i as nat) + stream_line(hops[i]) + rest,
    decreases n,
{
    if i == n - 1 {
        let rest = Seq::<char>::empty();
        assert(stream_lines(hops, n) =~= stream_lines(hops, i as nat) + stream_line(hops[i])
            + rest);
        rest
    } else {
        let before = law_stream_in_order(hops, i, (n - 1) as nat);
        let rest = before + stream_line(hops[n - 1]);
        assert(stream_lines(hops, n) =~= stream_lines(hops, i as nat) + stream_line(hops[i])
            + rest);
        rest
    }
}

} // verus!
