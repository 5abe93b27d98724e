//! A plain-text report.

use crate::lookup::display::{sanitize_display, sanitized};
use crate::session::{Hop, Session};
use crate::text::{
    copy_of, decimal, decimal_string, left_aligned, push_left_aligned, push_repeated,
    push_right_aligned, push_text, repeated, right_aligned,
};
use crate::time::{format_utc, has_date, utc_text, READABLE};
use vstd::prelude::*;

verus! {

/// What the report is about, and when it was made.
pub open spec fn heading(session: Session) -> Seq<char> {
    "ttl report for "@ + sanitized(session.target.original@) + " ("@ + session.target.resolved.text@
        + ")\n"@ + "Started: "@ + utc_text(session.started_at, READABLE@) + "\n"@
}

/// The interface, if one was asked for, and an empty line.
pub open spec fn interface_line(session: Session) -> Seq<char> {
    match session.config.interface {
        Some(name) => "Interface: "@ + sanitized(name@) + "\n\n"@,
        None => "\n"@,
    }
}

/// The names of the columns, underlined.
pub open spec fn columns() -> Seq<char> {
    right_aligned("#"@, 3) + "  "@ + left_aligned("Host"@, 46) + " "@ + right_aligned("Loss%"@, 6)
        + " "@ + right_aligned("Sent"@, 6) + " "@ + right_aligned("Avg"@, 8) + " "@ + right_aligned(
        "Min"@,
        8,
    ) + " "@ + right_aligned("Max"@, 8) + " "@ + right_aligned("StdDev"@, 8) + " "@ + right_aligned(
        "Jitter"@,
        8,
    ) + "\n"@ + repeated('-', 116) + "\n"@
}

/// Who answers at a hop.
pub open spec fn host(hop: Hop) -> Seq<char> {
    match hop.shown() {
        Some(stats) => match stats.hostname {
            Some(name) => name@ + " ("@ + stats.address.text@ + ")"@,
            None => stats.address.text@,
        },
        None => if hop.received == 0 {
            "* * *"@
        } else {
            "???"@
        },
    }
}

/// One of the round-trip figures of a hop.
#[derive(Clone, Copy, Debug, PartialEq, Eq, Structural)]
pub enum Column {
    Avg,
    Min,
    Max,
    StdDev,
    Jitter,
}

/// The text in a column of round-trip figures.
pub open spec fn cell(hop: Hop, column: Column) -> Seq<char> {
    match hop.shown() {
        Some(s) => if s.received > 0 {
            (match column {
                Column::Avg => s.figures.avg@,
                Column::Min => s.figures.min@,
                Column::Max => s.figures.max@,
                Column::StdDev => s.figures.stddev@,
                Column::Jitter => s.figures.jitter@,
            }) + "ms"@
        } else {
            "-"@
        },
        None => "-"@,
    }
}

/// The line of a hop.
pub open spec fn line(hop: Hop) -> Seq<char> {
    right_aligned(decimal(hop.ttl as nat), 3) + "  "@ + left_aligned(host(hop), 46) + " "@
        + right_aligned(hop.loss@, 5) + "% "@ + right_aligned(decimal(hop.sent as nat), 6) + " "@
        + right_aligned(cell(hop, Column::Avg), 8) + " "@ + right_aligned(cell(hop, Column::Min), 8)
        + " "@ + right_aligned(cell(hop, Column::Max), 8) + " "@ + right_aligned(
        cell(hop, Column::StdDev),
        8,
    ) + " "@ + right_aligned(cell(hop, Column::Jitter), 8) + "\n"@
}

/// The lines of those of the first `n` hops that are listed.
pub open spec fn lines(session: Session, n: nat) -> Seq<char>
    decreases n,
{
    if n == 0 {
        Seq::empty()
    } else if session.lists(session.hops@[n - 1]) {
        lines(session, (n - 1) as nat) + line(session.hops@[n - 1])
    } else {
        lines(session, (n - 1) as nat)
    }
}

/// The report of a session.
pub open spec fn report(session: Session) -> Seq<char> {
    heading(session) + interface_line(session) + columns() + lines(session, session.hops@.len())
}

fn heading_text(session: &Session) -> (r: String)
    requires
        has_date(session.started_at),
    ensures
        r@ == heading(*session) + interface_line(*session),
{
    let mut out: String = copy_of("ttl report for ");
    let target: String = sanitize_display(session.target.original.as_str());
    push_text(&mut out, target.as_str());
    push_text(&mut out, " (");
    push_text(&mut out, session.target.resolved.text.as_str());
    push_text(&mut out, ")\n");
    push_text(&mut out, "Started: ");
    let started: String = format_utc(session.started_at, READABLE);
    push_text(&mut out, started.as_str());
    push_text(&mut out, "\n");
    match &session.config.interface {
        Some(name) => {
            let mut second: String = copy_of("Interface: ");
            let safe: String = sanitize_display(name.as_str());
            push_text(&mut second, safe.as_str());
            push_text(&mut second, "\n\n");
            push_text(&mut out, second.as_str());
        },
        None => {
            push_text(&mut out, "\n");
        },
    }
    out
}

/// Text padded on the left.
fn right_cell(text: &str, width: usize) -> (r: String)
    ensures
        r@ == right_aligned(text@, width as nat),
{
    let mut out: String = String::new();
    push_right_aligned(&mut out, text, width);
    assert(out@ =~= right_aligned(text@, width as nat));
    out
}

fn columns_text() -> (r: String)
    ensures
        r@ == columns(),
{
    let mut out: String = right_cell("#", 3);
    push_text(&mut out, "  ");
    push_left_aligned(&mut out, "Host", 46);
    push_text(&mut out, " ");
    push_right_aligned(&mut out, "Loss%", 6);
    push_text(&mut out, " ");
    push_right_aligned(&mut out, "Sent", 6);
    push_text(&mut out, " ");
    push_right_aligned(&mut out, "Avg", 8);
    push_text(&mut out, " ");
    push_right_aligned(&mut out, "Min", 8);
    push_text(&mut out, " ");
    push_right_aligned(&mut out, "Max", 8);
    push_text(&mut out, " ");
    push_right_aligned(&mut out, "StdDev", 8);
    push_text(&mut out, " ");
    push_right_aligned(&mut out, "Jitter", 8);
    push_text(&mut out, "\n");
    push_repeated(&mut out, '-', 116);
    push_text(&mut out, "\n");
    out
}

fn host_text(hop: &Hop) -> (r: String)
    ensures
        r@ == host(*hop),
{
    match hop.primary_stats() {
        Some(stats) => match &stats.hostname {
            Some(name) => {
                let mut out: String = copy_of(name.as_str());
                push_text(&mut out, " (");
                push_text(&mut out, stats.address.text.as_str());
                push_text(&mut out, ")");
                out
            },
            None => copy_of(stats.address.text.as_str()),
        },
        None => if hop.received == 0 {
            copy_of("* * *")
        } else {
            copy_of("???")
        },
    }
}

fn cell_text(hop: &Hop, column: Column) -> (r: String)
    ensures
        r@ == cell(*hop, column),
{
    match hop.primary_stats() {
        Some(s) => if s.received > 0 {
            let mut out: String = copy_of(
                match column {
                    Column::Avg => s.figures.avg.as_str(),
                    Column::Min => s.figures.min.as_str(),
                    Column::Max => s.figures.max.as_str(),
                    Column::StdDev => s.figures.stddev.as_str(),
                    Column::Jitter => s.figures.jitter.as_str(),
                },
            );
            push_text(&mut out, "ms");
            out
        } else {
            copy_of("-")
        },
        None => copy_of("-"),
    }
}

fn line_text(hop: &Hop) -> (r: String)
    ensures
        r@ == line(*hop),
{
    let ttl: String = decimal_string(hop.ttl as u64);
    let sent: String = decimal_string(hop.sent);
    let name: String = host_text(hop);
    let avg: String = cell_text(hop, Column::Avg);
    let min: String = cell_text(hop, Column::Min);
    let max: String = cell_text(hop, Column::Max);
    let stddev: String = cell_text(hop, Column::StdDev);
    let jitter: String = cell_text(hop, Column::Jitter);
    let mut out: String = right_cell(ttl.as_str(), 3);
    push_text(&mut out, "  ");
    push_left_aligned(&mut out, name.as_str(), 46);
    push_text(&mut out, " ");
    push_right_aligned(&mut out, hop.loss.as_str(), 5);
    push_text(&mut out, "% ");
    push_right_aligned(&mut out, sent.as_str(), 6);
    push_text(&mut out, " ");
    push_right_aligned(&mut out, avg.as_str(), 8);
    push_text(&mut out, " ");
    push_right_aligned(&mut out, min.as_str(), 8);
    push_text(&mut out, " ");
    push_right_aligned(&mut out, max.as_str(), 8);
    push_text(&mut out, " ");
    push_right_aligned(&mut out, stddev.as_str(), 8);
    push_text(&mut out, " ");
    push_right_aligned(&mut out, jitter.as_str(), 8);
    push_text(&mut out, "\n");
    out
}

/// Appends the report of a session.
pub fn generate_report(session: &Session, writer: &mut String)
    requires
        has_date(session.started_at),
    ensures
        final(writer)@ == old(writer)@ + report(*session),
{
    let text: String = generate_report_string(session);
    push_text(writer, text.as_str());
}

/// The report of a session.
pub fn generate_report_string(session: &Session) -> (r: String)
    requires
        has_date(session.started_at),
    ensures
        r@ == report(*session),
{
    let mut out: String = heading_text(session);
    let names: String = columns_text();
    push_text(&mut out, names.as_str());
    let ghost top = out@;
    let mut i: usize = 0;
    assert(top + lines(*session, 0) =~= top);
    while i < session.hops.len()
        invariant
            i <= session.hops.len(),
            out@ == top + lines(*session, i as nat),
        decreases session.hops.len() - i,
    {
        let hop: &Hop = &session.hops[i];
        if session.is_listed(hop) {
            let text: String = line_text(hop);
            push_text(&mut out, text.as_str());
            assert(out@ =~= top + lines(*session, (i + 1) as nat));
        }
        i = i + 1;
    }
    out
}

/// Whether the cell of a hop stands under a heading: in the field of eight
/// characters in which the heading of the report stands, at its right.
pub open spec fn stands_under(hop: Hop, heading: Seq<char>, text: Seq<char>) -> bool {
    exists|at: int|
        0 <= at && at + 8 <= columns().len() && at + 8 <= line(hop).len() && #[trigger] field_at(
            columns(),
            at,
        ) == right_aligned(heading, 8) && field_at(line(hop), at) == right_aligned(text, 8)
}

/// The eight characters from a place on.
pub open spec fn field_at(s: Seq<char>, at: int) -> Seq<char> {
    s.subrange(at, at + 8)
}

/// Each figure of a hop whose responder has answered stands under its own
/// heading, as long as what is shown fits its columns; other hops have a dash
/// there.
pub proof fn law_figures_under_their_headings(hop: Hop)
    requires
        decimal(hop.ttl as nat).len() <= 3,
        host(hop).len() <= 46,
        hop.loss@.len() <= 5,
        decimal(hop.sent as nat).len() <= 6,
        hop.shown() matches Some(s) ==> s.figures.avg@.len() <= 6 && s.figures.min@.len() <= 6
            && s.figures.max@.len() <= 6 && s.figures.stddev@.len() <= 6
            && s.figures.jitter@.len() <= 6,
    ensures
        match hop.shown() {
            Some(s) if s.received > 0 => {
                &&& stands_under(hop, "Avg"@, s.figures.avg@ + "ms"@)
                &&& stands_under(hop, "Min"@, s.figures.min@ + "ms"@)
                &&& stands_under(hop, "Max"@, s.figures.max@ + "ms"@)
                &&& stands_under(hop, "StdDev"@, s.figures.stddev@ + "ms"@)
                &&& stands_under(hop, "Jitter"@, s.figures.jitter@ + "ms"@)
            },
            _ => {
                &&& stands_under(hop, "Avg"@, "-"@)
                &&& stands_under(hop, "Min"@, "-"@)
                &&& stands_under(hop, "Max"@, "-"@)
                &&& stands_under(hop, "StdDev"@, "-"@)
                &&& stands_under(hop, "Jitter"@, "-"@)
            },
        },
{
    reveal_strlit("#");
    reveal_strlit("  ");
    reveal_strlit("Host");
    reveal_strlit(" ");
    reveal_strlit("Loss%");
    reveal_strlit("Sent");
    reveal_strlit("Avg");
    reveal_strlit("Min");
    reveal_strlit("Max");
    reveal_strlit("StdDev");
    reveal_strlit("Jitter");
    reveal_strlit("\n");
    reveal_strlit("% ");
    reveal_strlit("ms");
    reveal_strlit("-");
    let c = columns();
    let l = line(hop);
    assert(field_at(c, 66) =~= right_aligned("Avg"@, 8));
    assert(field_at(c, 75) =~= right_aligned("Min"@, 8));
    assert(field_at(c, 84) =~= right_aligned("Max"@, 8));
    assert(field_at(c, 93) =~= right_aligned("StdDev"@, 8));
    assert(field_at(c, 102) =~= right_aligned("Jitter"@, 8));
    let avg = cell(hop, Column::Avg);
    let min = cell(hop, Column::Min);
    let max = cell(hop, Column::Max);
    let stddev = cell(hop, Column::StdDev);
    let jitter = cell(hop, Column::Jitter);
    assert(avg.len() <= 8 && min.len() <= 8 && max.len() <= 8 && stddev.len() <= 8 && jitter.len()
        <= 8);
    assert(field_at(l, 66) =~= right_aligned(avg, 8));
    assert(field_at(l, 75) =~= right_aligned(min, 8));
    assert(field_at(l, 84) =~= right_aligned(max, 8));
    assert(field_at(l, 93) =~= right_aligned(stddev, 8));
    assert(field_at(l, 102) =~= right_aligned(jitter, 8));
}

/// A hop is shown by its name and address, by its address where the name is
/// not known, and by stars where nothing has answered.
pub proof fn law_host_shown(hop: Hop)
    ensures
        hop.shown() matches Some(s) ==> (s.hostname matches Some(name) ==> host(hop) == name@
            + " ("@ + s.address.text@ + ")"@) && (s.hostname is None ==> host(hop)
            == s.address.text@),
        hop.shown() is None && hop.received == 0 ==> host(hop) == "* * *"@,
{
}

/// The lines of hops, one after the other.
pub open spec fn lines_of(hops: Seq<Hop>) -> Seq<char>
    decreases hops.len(),
{
    if hops.len() == 0 {
        Seq::empty()
    } else {
        lines_of(hops.drop_last()) + line(hops.last())
    }
}

/// The report says for which target it is and since when, and then has a line
/// for each hop that was probed and is not behind the target.
pub proof fn law_report_lists_hops(session: &Session, r: String)
    requires
        call_ensures(generate_report_string, (session,), r),
    ensures
        r@ == "ttl report for "@ + sanitized(session.target.original@) + " ("@
            + session.target.resolved.text@ + ")\n"@ + "Started: "@ + utc_text(
            session.started_at,
            READABLE@,
        ) + "\n"@ + (match session.config.interface {
            Some(name) => "Interface: "@ + sanitized(name@) + "\n\n"@,
            None => "\n"@,
        }) + columns() + lines_of(
            crate::export::csv::first_listed(*session, session.hops@.len() as int),
        ),
{
    lemma_lines_listed(*session, session.hops@.len());
}

/// The lines are those of the listed hops.
proof fn lemma_lines_listed(session: Session, n: nat)
    requires
        n <= session.hops@.len(),
    ensures
        lines(session, n) == lines_of(crate::export::csv::first_listed(session, n as int)),
    decreases n,
{
    reveal(Seq::filter);
    let hops = session.hops@;
    if n > 0 {
        lemma_lines_listed(session, (n - 1) as nat);
        assert(hops.take(n as int).drop_last() =~= hops.take(n - 1));
        let before = crate::export::csv::first_listed(session, n - 1);
        let hop = hops[n - 1];
        assert(hops.take(n as int).last() == hop);
        if session.lists(hop) {
            assert(crate::export::csv::first_listed(session, n as int) =~= before.push(hop));
            assert(before.push(hop).drop_last() =~= before);
        } else {
            assert(crate::export::csv::first_listed(session, n as int) =~= before);
        }
    } else {
        assert(hops.take(0) =~= Seq::empty());
        assert(crate::export::csv::first_listed(session, 0) =~= Seq::empty());
    }
}

/// A report is added to what has been written.
pub proof fn law_report_appended(session: &Session, w: &mut String, r: String)
    requires
        call_ensures(generate_report, (session, w), ()),
        call_ensures(generate_report_string, (session,), r),
    ensures
        final(w)@ == old(w)@ + r@,
{
}

} // verus!
