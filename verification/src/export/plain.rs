//! Text without control characters.

use crate::export::diff::{diff_views, HopDiffView, SessionDiff, SnapshotView};
use crate::export::diff_text::{
    change_mark, column_names, diff_text, distance, hop_line, host_width, label, loss_text,
    preamble, reached_text, responder_line, rtt_cell, rtt_text, signed, summary, table, target_text,
};
use crate::lookup::display::{law_sanitized_has_no_control, sanitized};
use crate::text::{
    decimal, digit_char, fill, is_control_char, joined, left_aligned, repeated, right_aligned,
};
use crate::time::{utc_text, READABLE};
use vstd::prelude::*;

verus! {

/// Whether a character may stand in plain text: no control character but a
/// newline.
pub open spec fn plain_char(c: char) -> bool {
    c == '\n' || !is_control_char(c)
}

/// Whether text holds no control character but newlines.
pub open spec fn plain(s: Seq<char>) -> bool {
    forall|i: int| 0 <= i < s.len() ==> plain_char(#[trigger] s[i])
}

/// Text made of plain parts is plain.
pub broadcast proof fn lemma_plain_add(a: Seq<char>, b: Seq<char>)
    ensures
        #[trigger] plain(a + b) == (plain(a) && plain(b)),
{
    if plain(a + b) {
        assert forall|i: int| 0 <= i < a.len() implies plain_char(#[trigger] a[i]) by {
            assert((a + b)[i] == a[i]);
        }
        assert forall|i: int| 0 <= i < b.len() implies plain_char(#[trigger] b[i]) by {
            assert((a + b)[a.len() + i] == b[i]);
        }
    }
    if plain(a) && plain(b) {
        assert forall|i: int| 0 <= i < (a + b).len() implies plain_char(#[trigger] (a + b)[i]) by {
            if i < a.len() {
                assert((a + b)[i] == a[i]);
            } else {
                assert((a + b)[i] == b[i - a.len()]);
            }
        }
    }
}

/// Numbers are plain.
pub broadcast proof fn lemma_plain_decimal(n: nat)
    ensures
        #[trigger] plain(decimal(n)),
    decreases n,
{
    if n >= 10 {
        lemma_plain_decimal(n / 10);
        let head = decimal(n / 10);
        assert forall|i: int| 0 <= i < decimal(n).len() implies plain_char(#[trigger] decimal(n)[i]) by {
            if i < head.len() {
                assert(decimal(n)[i] == head[i]);
            } else {
                assert(decimal(n)[i] == digit_char(n % 10));
            }
        }
    } else {
        assert forall|i: int| 0 <= i < decimal(n).len() implies plain_char(#[trigger] decimal(n)[i]) by {
            assert(decimal(n)[i] == digit_char(n));
        }
    }
}

/// Spaces are plain.
pub broadcast proof fn lemma_plain_spaces(n: nat)
    ensures
        #[trigger] plain(repeated(' ', n)),
{
}

/// Sanitized text is plain.
pub broadcast proof fn lemma_plain_sanitized(s: Seq<char>)
    ensures
        #[trigger] plain(sanitized(s)),
{
    law_sanitized_has_no_control(s);
    assert forall|i: int| 0 <= i < sanitized(s).len() implies plain_char(#[trigger] sanitized(s)[i]) by {
        assert(!is_control_char(sanitized(s)[i]));
    }
}

/// Padding keeps text plain.
pub broadcast proof fn lemma_plain_left(s: Seq<char>, width: nat)
    requires
        plain(s),
    ensures
        #[trigger] plain(left_aligned(s, width)),
{
    lemma_plain_add(s, fill(s.len(), width));
}

/// Padding keeps text plain.
pub broadcast proof fn lemma_plain_right(s: Seq<char>, width: nat)
    requires
        plain(s),
    ensures
        #[trigger] plain(right_aligned(s, width)),
{
    lemma_plain_add(fill(s.len(), width), s);
}

broadcast group group_plain {
    lemma_plain_add,
    lemma_plain_decimal,
    lemma_plain_spaces,
    lemma_plain_sanitized,
    lemma_plain_left,
    lemma_plain_right,
}

pub proof fn lemma_plain_label(snap: Option<SnapshotView>)
    ensures
        plain(label(snap)),
        plain(rtt_text(snap)),
        plain(loss_text(snap)),
{
    broadcast use group_plain;

    reveal_strlit("*");
    reveal_strlit("-");
    assert(plain("*"@));
    assert(plain("-"@));
}

proof fn lemma_plain_hop_line(width: nat, hop: HopDiffView)
    ensures
        plain(hop_line(false, width, hop)),
{
    broadcast use group_plain;

    reveal_strlit(" ");
    reveal_strlit("  ");
    reveal_strlit("\n");
    reveal_strlit(" \u{2192} ");
    reveal_strlit("[path]");
    reveal_strlit("[added]");
    reveal_strlit("[lost]");
    lemma_plain_label(hop.before);
    lemma_plain_label(hop.after);
    assert(plain(" "@));
    assert(plain("  "@));
    assert(plain("\n"@));
    assert(plain(" \u{2192} "@));
    assert(plain(change_mark(false, hop.change))) by {
        assert(plain("[path]"@));
        assert(plain("[added]"@));
        assert(plain("[lost]"@));
    }
    assert(plain(rtt_cell(false, hop)));
}

proof fn lemma_plain_joined(parts: Seq<Seq<char>>, sep: Seq<char>)
    requires
        plain(sep),
        forall|i: int| 0 <= i < parts.len() ==> plain(#[trigger] parts[i]),
    ensures
        plain(joined(parts, sep)),
    decreases parts.len(),
{
    broadcast use group_plain;

    if parts.len() > 1 {
        let rest = parts.skip(1);
        assert forall|i: int| 0 <= i < rest.len() implies plain(#[trigger] rest[i]) by {
            assert(rest[i] == parts[i + 1]);
        }
        lemma_plain_joined(rest, sep);
        assert(plain(parts[0]));
    } else if parts.len() == 1 {
        assert(plain(parts[0]));
    }
}

proof fn lemma_plain_responder_line(hop: HopDiffView)
    ensures
        plain(responder_line(false, hop)),
{
    broadcast use group_plain;

    reveal_strlit("      responders: ");
    reveal_strlit("  ");
    reveal_strlit("\n");
    reveal_strlit("+");
    reveal_strlit("-");
    assert(plain("      responders: "@));
    assert(plain("  "@));
    assert(plain("\n"@));
    assert(plain("+"@));
    assert(plain("-"@));
    let added = signed(false, "32"@, "+"@, hop.responders_added);
    let removed = signed(false, "31"@, "-"@, hop.responders_removed);
    let parts = added + removed;
    assert forall|i: int| 0 <= i < parts.len() implies plain(#[trigger] parts[i]) by {
        if i < added.len() {
            assert(parts[i] == "+"@ + sanitized(hop.responders_added[i].text));
        } else {
            let j = i - added.len();
            assert(parts[i] == "-"@ + sanitized(hop.responders_removed[j].text));
        }
    }
    lemma_plain_joined(parts, "  "@);
}

proof fn lemma_plain_table(width: nat, hops: Seq<HopDiffView>, n: nat)
    requires
        n <= hops.len(),
    ensures
        plain(table(false, width, hops, n)),
    decreases n,
{
    if n > 0 {
        lemma_plain_table(width, hops, (n - 1) as nat);
        lemma_plain_hop_line(width, hops[n - 1]);
        lemma_plain_responder_line(hops[n - 1]);
        let head = table(false, width, hops, (n - 1) as nat);
        lemma_plain_add(head, hop_line(false, width, hops[n - 1]));
        lemma_plain_add(
            head + hop_line(false, width, hops[n - 1]),
            responder_line(false, hops[n - 1]),
        );
    }
}

pub proof fn lemma_plain_preamble(diff: SessionDiff)
    requires
        plain(utc_text(diff.started_before, READABLE@)),
        plain(utc_text(diff.started_after, READABLE@)),
    ensures
        plain(preamble(diff)),
{
    broadcast use group_plain;

    reveal_strlit("Trace diff: ");
    reveal_strlit(" vs ");
    reveal_strlit("\n  before: ");
    reveal_strlit("  (");
    reveal_strlit(")\n  after:  ");
    reveal_strlit(")\n\n");
    assert(plain("Trace diff: "@));
    assert(plain(" vs "@));
    assert(plain("\n  before: "@));
    assert(plain("  ("@));
    assert(plain(")\n  after:  "@));
    assert(plain(")\n\n"@));
    assert(plain(target_text(diff)));
}

pub proof fn lemma_plain_columns(width: nat)
    ensures
        plain(column_names(width)),
{
    broadcast use group_plain;

    reveal_strlit(" TTL  ");
    reveal_strlit("Before");
    reveal_strlit("After");
    reveal_strlit("Change");
    reveal_strlit("Avg RTT (ms)");
    reveal_strlit("Loss (%)");
    reveal_strlit("  ");
    reveal_strlit("\n");
    assert(plain(" TTL  "@));
    assert(plain("Before"@));
    assert(plain("After"@));
    assert(plain("Change"@));
    assert(plain("Avg RTT (ms)"@));
    assert(plain("Loss (%)"@));
    assert(plain("  "@));
    assert(plain("\n"@));
}

pub proof fn lemma_plain_summary(hops: Seq<HopDiffView>)
    ensures
        plain(summary(false, hops)),
{
    broadcast use group_plain;

    reveal_strlit("\nSummary: ");
    reveal_strlit(" path change(s), ");
    reveal_strlit(" hop(s) added, ");
    reveal_strlit(" hop(s) lost, ");
    reveal_strlit(" significant latency shift(s)\n");
    reveal_strlit("no changes detected");
    reveal_strlit("\n");
    assert(plain("\nSummary: "@));
    assert(plain(" path change(s), "@));
    assert(plain(" hop(s) added, "@));
    assert(plain(" hop(s) lost, "@));
    assert(plain(" significant latency shift(s)\n"@));
    assert(plain("no changes detected"@));
    assert(plain("\n"@));
}

pub proof fn lemma_plain_reached(diff: SessionDiff)
    ensures
        plain(reached_text(false, diff)),
{
    broadcast use group_plain;

    reveal_strlit("destination reached in both (");
    reveal_strlit(" \u{2192} ");
    reveal_strlit(" hops)");
    reveal_strlit("?");
    reveal_strlit("destination reached only in before session");
    reveal_strlit("destination reached only in after session");
    reveal_strlit("destination not reached in either session");
    assert(plain("destination reached in both ("@));
    assert(plain(" \u{2192} "@));
    assert(plain(" hops)"@));
    assert(plain("?"@));
    assert(plain(distance(diff.dest_ttl_before)));
    assert(plain(distance(diff.dest_ttl_after)));
    assert(plain("destination reached only in before session"@));
    assert(plain("destination reached only in after session"@));
    assert(plain("destination not reached in either session"@));
}

/// Without colours the comparison holds no control characters but newlines,
/// whatever the sessions hold.
pub proof fn law_plain_text_has_no_control(diff: SessionDiff)
    requires
        plain(utc_text(diff.started_before, READABLE@)),
        plain(utc_text(diff.started_after, READABLE@)),
    ensures
        plain(diff_text(diff, false)),
{
    broadcast use lemma_plain_add;

    let hops = diff_views(diff.hops@);
    let width = host_width(hops);
    lemma_plain_preamble(diff);
    lemma_plain_columns(width);
    lemma_plain_table(width, hops, hops.len());
    lemma_plain_summary(hops);
    lemma_plain_reached(diff);
    reveal_strlit("  ");
    reveal_strlit("\n");
    assert(plain("  "@));
    assert(plain("\n"@));
}

} // verus!
