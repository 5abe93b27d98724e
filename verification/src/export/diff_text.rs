//! The comparison of two sessions as text.

use crate::export::colour::{law_colours_only_add_codes, stripped};
use crate::export::diff::{
    any_changed, count_of, diff_views, shifts_of, HopChange, HopDiff, HopDiffView, HopSnapshot,
    SessionDiff, SnapshotView,
};
use crate::export::plain::{law_plain_text_has_no_control, plain};
use crate::lookup::display::{sanitize_display, sanitized};
use crate::session::{Address, AddressView};
use crate::text::{
    char_count, copy_of, decimal, decimal_string, is_control_char, join, joined, left_aligned, push_decimal,
    push_left_aligned, push_repeated, push_right_aligned, push_text, repeated, right_aligned,
    same_text, texts,
};
use crate::time::{format_utc, has_date, utc_text, READABLE};
use vstd::prelude::*;

verus! {

/// Whether terminal colours are used.
pub struct Palette {
    pub color: bool,
}

/// Text in a colour, if colours are used.
pub open spec fn painted(color: bool, code: Seq<char>, s: Seq<char>) -> Seq<char> {
    if color {
        "\x1b["@ + code + "m"@ + s + "\x1b[0m"@
    } else {
        s
    }
}

impl Palette {
    /// Text in the colour of a code.
    pub fn paint(&self, code: &str, s: &str) -> (r: String)
        ensures
            r@ == painted(self.color, code@, s@),
    {
        if self.color {
            let mut out: String = copy_of("\x1b[");
            push_text(&mut out, code);
            push_text(&mut out, "m");
            push_text(&mut out, s);
            push_text(&mut out, "\x1b[0m");
            out
        } else {
            copy_of(s)
        }
    }

    pub fn green(&self, s: &str) -> (r: String)
        ensures
            r@ == painted(self.color, "32"@, s@),
    {
        self.paint("32", s)
    }

    pub fn red(&self, s: &str) -> (r: String)
        ensures
            r@ == painted(self.color, "31"@, s@),
    {
        self.paint("31", s)
    }

    pub fn yellow(&self, s: &str) -> (r: String)
        ensures
            r@ == painted(self.color, "33"@, s@),
    {
        self.paint("33", s)
    }

    pub fn dim(&self, s: &str) -> (r: String)
        ensures
            r@ == painted(self.color, "2"@, s@),
    {
        self.paint("2", s)
    }
}

/// What a hop is called: its host name if known, else its address, else a
/// star. (No text is shown with control characters; addresses and figures
/// have none.)
pub open spec fn label(snap: Option<SnapshotView>) -> Seq<char> {
    match snap {
        Some(s) => match (s.hostname, s.primary) {
            (Some(h), _) => sanitized(h),
            (None, Some(a)) => sanitized(a.text),
            (None, None) => "*"@,
        },
        None => "*"@,
    }
}

/// What a hop is called.
pub fn host_label(snap: &Option<HopSnapshot>) -> (r: String)
    ensures
        r@ == label(crate::export::diff::opt_snapshot(*snap)),
{
    match snap {
        Some(s) => match (&s.hostname, &s.primary) {
            (Some(h), _) => sanitize_display(h.as_str()),
            (None, Some(a)) => sanitize_display(a.text.as_str()),
            (None, None) => copy_of("*"),
        },
        None => copy_of("*"),
    }
}

/// The average of a side, or a dash.
pub open spec fn rtt_text(snap: Option<SnapshotView>) -> Seq<char> {
    match snap {
        Some(s) => match s.avg_rtt_ms {
            Some(ms) => right_aligned(sanitized(ms), 7),
            None => right_aligned("-"@, 7),
        },
        None => right_aligned("-"@, 7),
    }
}

/// The loss of a side, or a dash.
pub open spec fn loss_text(snap: Option<SnapshotView>) -> Seq<char> {
    match snap {
        Some(s) => right_aligned(sanitized(s.loss_pct), 5),
        None => right_aligned("-"@, 5),
    }
}

fn right_cell(text: &str, width: usize) -> (r: String)
    ensures
        r@ == right_aligned(text@, width as nat),
{
    let mut out: String = String::new();
    push_right_aligned(&mut out, text, width);
    assert(out@ =~= right_aligned(text@, width as nat));
    out
}

fn fmt_rtt(snap: &Option<HopSnapshot>) -> (r: String)
    ensures
        r@ == rtt_text(crate::export::diff::opt_snapshot(*snap)),
{
    match snap {
        Some(s) => match &s.avg_rtt_ms {
            Some(ms) => {
                let shown: String = sanitize_display(ms.as_str());
                right_cell(shown.as_str(), 7)
            },
            None => right_cell("-", 7),
        },
        None => right_cell("-", 7),
    }
}

fn fmt_loss(snap: &Option<HopSnapshot>) -> (r: String)
    ensures
        r@ == loss_text(crate::export::diff::opt_snapshot(*snap)),
{
    match snap {
        Some(s) => {
            let shown: String = sanitize_display(s.loss_pct.as_str());
            right_cell(shown.as_str(), 5)
        },
        None => right_cell("-", 5),
    }
}

/// The larger of two numbers.
pub open spec fn larger(a: nat, b: nat) -> nat {
    if a >= b {
        a
    } else {
        b
    }
}

/// The width of the host columns: the longest label, at least 15.
pub open spec fn host_width(hops: Seq<HopDiffView>) -> nat
    decreases hops.len(),
{
    if hops.len() == 0 {
        15
    } else {
        larger(
            host_width(hops.drop_last()),
            larger(label(hops.last().before).len(), label(hops.last().after).len()),
        )
    }
}

fn label_width(diff: &SessionDiff) -> (r: usize)
    ensures
        r == host_width(diff_views(diff.hops@)),
{
    let ghost all = diff_views(diff.hops@);
    let mut width: usize = 15;
    let mut i: usize = 0;
    assert(all.take(0) =~= Seq::empty());
    while i < diff.hops.len()
        invariant
            i <= diff.hops.len(),
            all == diff_views(diff.hops@),
            width == host_width(all.take(i as int)),
        decreases diff.hops.len() - i,
    {
        assert(all.take(i + 1).drop_last() =~= all.take(i as int));
        let b: String = host_label(&diff.hops[i].before);
        let a: String = host_label(&diff.hops[i].after);
        let nb: usize = char_count(b.as_str());
        let na: usize = char_count(a.as_str());
        if nb > width {
            width = nb;
        }
        if na > width {
            width = na;
        }
        i = i + 1;
    }
    assert(all.take(all.len() as int) =~= all);
    width
}

/// What is compared.
pub open spec fn target_text(diff: SessionDiff) -> Seq<char> {
    if diff.target_before@ == diff.target_after@ {
        sanitized(diff.target_before@)
    } else {
        sanitized(diff.target_before@) + " vs "@ + sanitized(diff.target_after@)
    }
}

/// The lines above the table.
pub open spec fn preamble(diff: SessionDiff) -> Seq<char> {
    "Trace diff: "@ + target_text(diff) + "\n  before: "@ + sanitized(diff.before_file@) + "  ("@
        + utc_text(diff.started_before, READABLE@) + ")\n  after:  "@ + sanitized(diff.after_file@)
        + "  ("@ + utc_text(diff.started_after, READABLE@) + ")\n\n"@
}

/// The names of the columns.
pub open spec fn column_names(width: nat) -> Seq<char> {
    " TTL  "@ + left_aligned("Before"@, width) + "  "@ + left_aligned("After"@, width) + "  "@
        + left_aligned("Change"@, 8) + "  "@ + right_aligned("Avg RTT (ms)"@, 15) + "  "@
        + right_aligned("Loss (%)"@, 13) + "\n"@
}

/// The mark of a change, padded to eight columns (colours take none).
pub open spec fn change_mark(color: bool, change: HopChange) -> Seq<char> {
    match change {
        HopChange::Unchanged => repeated(' ', 8),
        HopChange::PathChange => painted(color, "33"@, "[path]"@) + repeated(' ', 2),
        HopChange::Added => painted(color, "32"@, "[added]"@) + repeated(' ', 1),
        HopChange::Lost => painted(color, "31"@, "[lost]"@) + repeated(' ', 2),
    }
}

/// The two averages.
pub open spec fn rtt_cell(color: bool, hop: HopDiffView) -> Seq<char> {
    let plain = rtt_text(hop.before) + " \u{2192} "@ + rtt_text(hop.after);
    if hop.rtt_significant {
        painted(color, "33"@, plain)
    } else {
        plain
    }
}

/// The line of a hop.
pub open spec fn hop_line(color: bool, width: nat, hop: HopDiffView) -> Seq<char> {
    " "@ + right_aligned(decimal(hop.ttl as nat), 3) + "  "@ + left_aligned(
        label(hop.before),
        width,
    ) + "  "@ + left_aligned(label(hop.after), width) + "  "@ + change_mark(color, hop.change)
        + "  "@ + rtt_cell(color, hop) + "  "@ + (loss_text(hop.before) + " \u{2192} "@ + loss_text(
        hop.after,
    )) + "\n"@
}

/// Addresses with a sign in front, in a colour.
pub open spec fn signed(
    color: bool,
    code: Seq<char>,
    sign: Seq<char>,
    addresses: Seq<AddressView>,
) -> Seq<Seq<char>> {
    Seq::new(addresses.len(), |i: int| painted(color, code, sign + sanitized(addresses[i].text)))
}

/// The line of responders that came or went, if any did.
pub open spec fn responder_line(color: bool, hop: HopDiffView) -> Seq<char> {
    if hop.responders_added.len() > 0 || hop.responders_removed.len() > 0 {
        "      responders: "@ + joined(
            signed(color, "32"@, "+"@, hop.responders_added) + signed(
                color,
                "31"@,
                "-"@,
                hop.responders_removed,
            ),
            "  "@,
        ) + "\n"@
    } else {
        Seq::empty()
    }
}

/// The table of the first `n` hops.
pub open spec fn table(color: bool, width: nat, hops: Seq<HopDiffView>, n: nat) -> Seq<char>
    decreases n,
{
    if n == 0 {
        Seq::empty()
    } else {
        table(color, width, hops, (n - 1) as nat) + hop_line(color, width, hops[n - 1])
            + responder_line(color, hops[n - 1])
    }
}

/// The counts of changes.
pub open spec fn summary(color: bool, hops: Seq<HopDiffView>) -> Seq<char> {
    if any_changed(hops) {
        "\nSummary: "@ + decimal(count_of(hops, HopChange::PathChange)) + " path change(s), "@
            + decimal(count_of(hops, HopChange::Added)) + " hop(s) added, "@ + decimal(
            count_of(hops, HopChange::Lost),
        ) + " hop(s) lost, "@ + decimal(shifts_of(hops)) + " significant latency shift(s)\n"@
    } else {
        "\nSummary: "@ + painted(color, "2"@, "no changes detected"@) + "\n"@
    }
}

/// A distance, or a question mark.
pub open spec fn distance(ttl: Option<u8>) -> Seq<char> {
    match ttl {
        Some(t) => decimal(t as nat),
        None => "?"@,
    }
}

/// Whether the target was reached.
pub open spec fn reached_text(color: bool, diff: SessionDiff) -> Seq<char> {
    if diff.complete_before && diff.complete_after {
        "destination reached in both ("@ + distance(diff.dest_ttl_before) + " \u{2192} "@
            + distance(diff.dest_ttl_after) + " hops)"@
    } else if diff.complete_before {
        painted(color, "31"@, "destination reached only in before session"@)
    } else if diff.complete_after {
        painted(color, "32"@, "destination reached only in after session"@)
    } else {
        painted(color, "2"@, "destination not reached in either session"@)
    }
}

/// The comparison as text.
pub open spec fn diff_text(diff: SessionDiff, color: bool) -> Seq<char> {
    let hops = diff_views(diff.hops@);
    let width = host_width(hops);
    preamble(diff) + column_names(width) + table(color, width, hops, hops.len()) + summary(
        color,
        hops,
    ) + "  "@ + reached_text(color, diff) + "\n"@
}

fn preamble_text(diff: &SessionDiff) -> (r: String)
    requires
        has_date(diff.started_before),
        has_date(diff.started_after),
    ensures
        r@ == preamble(*diff),
        plain(utc_text(diff.started_before, READABLE@)),
        plain(utc_text(diff.started_after, READABLE@)),
{
    let mut target: String = sanitize_display(diff.target_before.as_str());
    if !same_text(diff.target_before.as_str(), diff.target_after.as_str()) {
        let other: String = sanitize_display(diff.target_after.as_str());
        push_text(&mut target, " vs ");
        push_text(&mut target, other.as_str());
    }
    let before: String = sanitize_display(diff.before_file.as_str());
    let after: String = sanitize_display(diff.after_file.as_str());
    let from: String = format_utc(diff.started_before, READABLE);
    let to: String = format_utc(diff.started_after, READABLE);
    proof {
        assert(forall|i: int| 0 <= i < from@.len() ==> !is_control_char(#[trigger] from@[i]));
        assert(forall|i: int| 0 <= i < to@.len() ==> !is_control_char(#[trigger] to@[i]));
    }
    let mut out: String = copy_of("Trace diff: ");
    push_text(&mut out, target.as_str());
    push_text(&mut out, "\n  before: ");
    push_text(&mut out, before.as_str());
    push_text(&mut out, "  (");
    push_text(&mut out, from.as_str());
    push_text(&mut out, ")\n  after:  ");
    push_text(&mut out, after.as_str());
    push_text(&mut out, "  (");
    push_text(&mut out, to.as_str());
    push_text(&mut out, ")\n\n");
    out
}

fn column_names_text(width: usize) -> (r: String)
    ensures
        r@ == column_names(width as nat),
{
    let mut out: String = copy_of(" TTL  ");
    push_left_aligned(&mut out, "Before", width);
    push_text(&mut out, "  ");
    push_left_aligned(&mut out, "After", width);
    push_text(&mut out, "  ");
    push_left_aligned(&mut out, "Change", 8);
    push_text(&mut out, "  ");
    push_right_aligned(&mut out, "Avg RTT (ms)", 15);
    push_text(&mut out, "  ");
    push_right_aligned(&mut out, "Loss (%)", 13);
    push_text(&mut out, "\n");
    out
}

fn change_mark_text(p: &Palette, change: HopChange) -> (r: String)
    ensures
        r@ == change_mark(p.color, change),
{
    match change {
        HopChange::Unchanged => {
            let mut out: String = String::new();
            push_repeated(&mut out, ' ', 8);
            assert(out@ =~= repeated(' ', 8));
            out
        },
        HopChange::PathChange => {
            let mut out: String = p.yellow("[path]");
            push_repeated(&mut out, ' ', 2);
            out
        },
        HopChange::Added => {
            let mut out: String = p.green("[added]");
            push_repeated(&mut out, ' ', 1);
            out
        },
        HopChange::Lost => {
            let mut out: String = p.red("[lost]");
            push_repeated(&mut out, ' ', 2);
            out
        },
    }
}

fn hop_line_text(p: &Palette, width: usize, hop: &HopDiff) -> (r: String)
    ensures
        r@ == hop_line(p.color, width as nat, hop@),
{
    let mark: String = change_mark_text(p, hop.change);
    let mut rtt: String = fmt_rtt(&hop.before);
    push_text(&mut rtt, " \u{2192} ");
    let rtt_after: String = fmt_rtt(&hop.after);
    push_text(&mut rtt, rtt_after.as_str());
    if hop.rtt_significant {
        rtt = p.yellow(rtt.as_str());
    }
    let mut loss: String = fmt_loss(&hop.before);
    push_text(&mut loss, " \u{2192} ");
    let loss_after: String = fmt_loss(&hop.after);
    push_text(&mut loss, loss_after.as_str());
    let ttl: String = decimal_string(hop.ttl as u64);
    let before: String = host_label(&hop.before);
    let after: String = host_label(&hop.after);
    let mut out: String = copy_of(" ");
    push_right_aligned(&mut out, ttl.as_str(), 3);
    push_text(&mut out, "  ");
    push_left_aligned(&mut out, before.as_str(), width);
    push_text(&mut out, "  ");
    push_left_aligned(&mut out, after.as_str(), width);
    push_text(&mut out, "  ");
    push_text(&mut out, mark.as_str());
    push_text(&mut out, "  ");
    push_text(&mut out, rtt.as_str());
    push_text(&mut out, "  ");
    push_text(&mut out, loss.as_str());
    push_text(&mut out, "\n");
    out
}

/// Appends addresses with a sign in front, in a colour.
fn push_signed(parts: &mut Vec<String>, p: &Palette, code: &str, sign: &str, list: &Vec<Address>)
    ensures
        texts(final(parts)@) == texts(old(parts)@) + signed(
            p.color,
            code@,
            sign@,
            crate::session::address_views(list@),
        ),
{
    let ghost start = texts(parts@);
    let ghost all = signed(p.color, code@, sign@, crate::session::address_views(list@));
    let mut i: usize = 0;
    assert(start + all.take(0) =~= start);
    while i < list.len()
        invariant
            i <= list.len(),
            all == signed(p.color, code@, sign@, crate::session::address_views(list@)),
            texts(parts@) == start + all.take(i as int),
        decreases list.len() - i,
    {
        let mut one: String = copy_of(sign);
        let shown: String = sanitize_display(list[i].text.as_str());
        push_text(&mut one, shown.as_str());
        let ghost so_far = texts(parts@);
        let cell: String = p.paint(code, one.as_str());
        let ghost view = cell@;
        parts.push(cell);
        proof {
            assert(texts(parts@) =~= so_far.push(view));
            assert(view == all[i as int]);
            assert(all.take(i + 1) =~= all.take(i as int).push(view));
            assert(so_far.push(view) =~= start + all.take(i + 1));
        }
        i = i + 1;
    }
    assert(all.take(all.len() as int) =~= all);
}

fn responder_line_text(p: &Palette, hop: &HopDiff) -> (r: String)
    ensures
        r@ == responder_line(p.color, hop@),
{
    if hop.responders_added.len() == 0 && hop.responders_removed.len() == 0 {
        let none: String = String::new();
        assert(none@ =~= Seq::empty());
        return none;
    }
    let mut parts: Vec<String> = Vec::new();
    assert(texts(parts@) =~= Seq::empty());
    push_signed(&mut parts, p, "32", "+", &hop.responders_added);
    assert(texts(parts@) =~= signed(p.color, "32"@, "+"@, hop@.responders_added));
    push_signed(&mut parts, p, "31", "-", &hop.responders_removed);
    let all: String = join(&parts, "  ");
    let mut out: String = copy_of("      responders: ");
    push_text(&mut out, all.as_str());
    push_text(&mut out, "\n");
    out
}

fn summary_text(p: &Palette, diff: &SessionDiff) -> (r: String)
    ensures
        r@ == summary(p.color, diff_views(diff.hops@)),
{
    let mut out: String = copy_of("\nSummary: ");
    if diff.has_changes() {
        push_decimal(&mut out, diff.count(HopChange::PathChange) as u64);
        push_text(&mut out, " path change(s), ");
        push_decimal(&mut out, diff.count(HopChange::Added) as u64);
        push_text(&mut out, " hop(s) added, ");
        push_decimal(&mut out, diff.count(HopChange::Lost) as u64);
        push_text(&mut out, " hop(s) lost, ");
        push_decimal(&mut out, diff.rtt_shifts() as u64);
        push_text(&mut out, " significant latency shift(s)\n");
    } else {
        let note: String = p.dim("no changes detected");
        push_text(&mut out, note.as_str());
        push_text(&mut out, "\n");
    }
    out
}

fn distance_text(ttl: Option<u8>) -> (r: String)
    ensures
        r@ == distance(ttl),
{
    match ttl {
        Some(t) => decimal_string(t as u64),
        None => copy_of("?"),
    }
}

fn reached(p: &Palette, diff: &SessionDiff) -> (r: String)
    ensures
        r@ == reached_text(p.color, *diff),
{
    if diff.complete_before && diff.complete_after {
        let from: String = distance_text(diff.dest_ttl_before);
        let to: String = distance_text(diff.dest_ttl_after);
        let mut out: String = copy_of("destination reached in both (");
        push_text(&mut out, from.as_str());
        push_text(&mut out, " \u{2192} ");
        push_text(&mut out, to.as_str());
        push_text(&mut out, " hops)");
        out
    } else if diff.complete_before {
        p.red("destination reached only in before session")
    } else if diff.complete_after {
        p.green("destination reached only in after session")
    } else {
        p.dim("destination not reached in either session")
    }
}

/// Appends the comparison as text for people to read. Without colours it
/// holds no control character but newlines, and the colours add nothing but
/// their codes, whatever the sessions hold.
pub fn write_diff_text(diff: &SessionDiff, w: &mut String, color: bool)
    requires
        has_date(diff.started_before),
        has_date(diff.started_after),
    ensures
        final(w)@ == old(w)@ + diff_text(*diff, color),
        plain(diff_text(*diff, false)),
        stripped(diff_text(*diff, true)) == diff_text(*diff, false),
{
    let p = Palette { color };
    let width: usize = label_width(diff);
    let ghost hops = diff_views(diff.hops@);
    let mut out: String = preamble_text(diff);
    let names: String = column_names_text(width);
    push_text(&mut out, names.as_str());
    let ghost top = out@;
    let mut i: usize = 0;
    assert(top + table(color, width as nat, hops, 0) =~= top);
    while i < diff.hops.len()
        invariant
            i <= diff.hops.len(),
            p.color == color,
            hops == diff_views(diff.hops@),
            out@ == top + table(color, width as nat, hops, i as nat),
        decreases diff.hops.len() - i,
    {
        let line: String = hop_line_text(&p, width, &diff.hops[i]);
        let more: String = responder_line_text(&p, &diff.hops[i]);
        push_text(&mut out, line.as_str());
        push_text(&mut out, more.as_str());
        assert(hops[i as int] == diff.hops@[i as int]@);
        assert(out@ =~= top + table(color, width as nat, hops, (i + 1) as nat));
        i = i + 1;
    }
    let counts: String = summary_text(&p, diff);
    push_text(&mut out, counts.as_str());
    push_text(&mut out, "  ");
    let end: String = reached(&p, diff);
    push_text(&mut out, end.as_str());
    push_text(&mut out, "\n");
    push_text(w, out.as_str());
    proof {
        law_plain_text_has_no_control(*diff);
        law_colours_only_add_codes(*diff);
    }
}

/// In the comparison the labels of before and after stand under their
/// headings, and how a hop has changed behind them.
pub proof fn law_sides_under_their_headings(hop: HopDiffView, width: nat)
    requires
        width >= 6,
        label(hop.before).len() <= width,
        label(hop.after).len() <= width,
        decimal(hop.ttl as nat).len() <= 3,
    ensures
        ({
            let heading = column_names(width);
            let line = hop_line(false, width, hop);
            let w = width as int;
            &&& heading.subrange(6, 6 + w) == left_aligned("Before"@, width)
            &&& line.subrange(6, 6 + w) == left_aligned(label(hop.before), width)
            &&& heading.subrange(8 + w, 8 + 2 * w) == left_aligned("After"@, width)
            &&& line.subrange(8 + w, 8 + 2 * w) == left_aligned(label(hop.after), width)
            &&& line.subrange(1, 4) == right_aligned(decimal(hop.ttl as nat), 3)
            &&& line.subrange(10 + 2 * w, 18 + 2 * w) == left_aligned(
                match hop.change {
                    HopChange::Unchanged => Seq::empty(),
                    HopChange::PathChange => "[path]"@,
                    HopChange::Added => "[added]"@,
                    HopChange::Lost => "[lost]"@,
                },
                8,
            )
        }),
{
    reveal_strlit(" TTL  ");
    reveal_strlit("Before");
    reveal_strlit("After");
    reveal_strlit("  ");
    reveal_strlit(" ");
    reveal_strlit("[path]");
    reveal_strlit("[added]");
    reveal_strlit("[lost]");
    let heading = column_names(width);
    let line = hop_line(false, width, hop);
    let w = width as int;
    assert(left_aligned("Before"@, width).len() == w && left_aligned("After"@, width).len() == w);
    assert(heading.subrange(6, 6 + w) =~= left_aligned("Before"@, width));
    assert(heading.subrange(8 + w, 8 + 2 * w) =~= left_aligned("After"@, width));
    assert(line.subrange(1, 4) =~= right_aligned(decimal(hop.ttl as nat), 3));
    assert(line.subrange(6, 6 + w) =~= left_aligned(label(hop.before), width));
    assert(line.subrange(8 + w, 8 + 2 * w) =~= left_aligned(label(hop.after), width));
    let mark = change_mark(false, hop.change);
    assert(mark.len() == 8);
    assert(line.subrange(10 + 2 * w, 18 + 2 * w) =~= mark);
    assert(mark =~= left_aligned(
        match hop.change {
            HopChange::Unchanged => Seq::empty(),
            HopChange::PathChange => "[path]"@,
            HopChange::Added => "[added]"@,
            HopChange::Lost => "[lost]"@,
        },
        8,
    ));
}

/// A hop goes by its name, else by its address, else by a star.
pub proof fn law_hop_label(snap: &Option<HopSnapshot>, r: String)
    requires
        call_ensures(host_label, (snap,), r),
    ensures
        *snap is None ==> r@ == "*"@,
        snap matches Some(s) ==> (s.hostname matches Some(name) ==> r@ == sanitized(name@)) && (
        s.hostname is None ==> (s.primary matches Some(a) ==> r@ == sanitized(a.text@))),
{
}

/// Added is green, lost is red, changed is yellow; without colours text stays
/// as it is.
pub proof fn law_colours_of_changes(
    p: &Palette,
    s: &str,
    green: String,
    red: String,
    yellow: String,
    dim: String,
)
    requires
        call_ensures(Palette::green, (p, s), green),
        call_ensures(Palette::red, (p, s), red),
        call_ensures(Palette::yellow, (p, s), yellow),
        call_ensures(Palette::dim, (p, s), dim),
    ensures
        !p.color ==> green@ == s@ && red@ == s@ && yellow@ == s@ && dim@ == s@,
        p.color ==> green@ == "\x1b["@ + "32"@ + "m"@ + s@ + "\x1b[0m"@ && red@ == "\x1b["@ + "31"@
            + "m"@ + s@ + "\x1b[0m"@ && yellow@ == "\x1b["@ + "33"@ + "m"@ + s@ + "\x1b[0m"@
            && dim@ == "\x1b["@ + "2"@ + "m"@ + s@ + "\x1b[0m"@,
{
}

/// Of a hop that has changed its latency or loss, what it was stands before
/// the arrow and what it is behind it.
pub proof fn law_before_the_arrow(hop: HopDiffView, b: SnapshotView, a: SnapshotView)
    requires
        hop.before == Some(b),
        hop.after == Some(a),
        b.avg_rtt_ms is Some,
        a.avg_rtt_ms is Some,
    ensures
        rtt_cell(false, hop) == right_aligned(sanitized(b.avg_rtt_ms->0), 7) + " \u{2192} "@
            + right_aligned(sanitized(a.avg_rtt_ms->0), 7),
        loss_text(hop.before) == right_aligned(sanitized(b.loss_pct), 5),
        loss_text(hop.after) == right_aligned(sanitized(a.loss_pct), 5),
{
}

/// The end of the comparison says in which of the two sessions the target was
/// reached, and at what distances if in both; what has changed is counted by
/// its kind.
pub proof fn law_comparison_ends(diff: SessionDiff)
    ensures
        diff.complete_before && diff.complete_after ==> (diff.dest_ttl_before matches Some(b) ==> (
        diff.dest_ttl_after matches Some(a) ==> reached_text(false, diff)
            == "destination reached in both ("@ + decimal(b as nat) + " \u{2192} "@ + decimal(
            a as nat,
        ) + " hops)"@)),
        diff.complete_before && !diff.complete_after ==> reached_text(false, diff)
            == "destination reached only in before session"@,
        !diff.complete_before && diff.complete_after ==> reached_text(false, diff)
            == "destination reached only in after session"@,
        !diff.complete_before && !diff.complete_after ==> reached_text(false, diff)
            == "destination not reached in either session"@,
        any_changed(diff_views(diff.hops@)) ==> summary(false, diff_views(diff.hops@))
            == "\nSummary: "@ + decimal(
            diff.hops@.filter(|d: HopDiff| d.change == HopChange::PathChange).len(),
        ) + " path change(s), "@ + decimal(
            diff.hops@.filter(|d: HopDiff| d.change == HopChange::Added).len(),
        ) + " hop(s) added, "@ + decimal(
            diff.hops@.filter(|d: HopDiff| d.change == HopChange::Lost).len(),
        ) + " hop(s) lost, "@ + decimal(
            diff.hops@.filter(|d: HopDiff| d.rtt_significant).len(),
        ) + " significant latency shift(s)\n"@,
{
    crate::export::diff::lemma_counted(diff.hops@, HopChange::PathChange);
    crate::export::diff::lemma_counted(diff.hops@, HopChange::Added);
    crate::export::diff::lemma_counted(diff.hops@, HopChange::Lost);
}

} // verus!
