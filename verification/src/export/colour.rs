//! Terminal colours: what is left of text when they are taken out.

use crate::export::diff::{any_changed, diff_views, HopChange, HopDiffView, SessionDiff};
use crate::export::diff_text::{
    change_mark, diff_text, hop_line, host_width, painted, reached_text, responder_line, rtt_cell,
    rtt_text, signed, summary, table,
};
use crate::export::plain::{
    lemma_plain_add, lemma_plain_columns, lemma_plain_label, lemma_plain_left,
    lemma_plain_preamble, lemma_plain_reached, lemma_plain_right, lemma_plain_spaces,
    lemma_plain_sanitized, lemma_plain_summary, lemma_plain_decimal, plain, plain_char,
};
use crate::lookup::display::sanitized;
use crate::session::AddressView;
use crate::text::joined;
use crate::time::{utc_text, READABLE};
use vstd::prelude::*;

verus! {

/// Whether a character is a decimal digit.
pub open spec fn is_digit(c: char) -> bool {
    '0' <= c <= '9'
}

/// How many digits text starts with.
pub open spec fn leading_digits(s: Seq<char>) -> nat
    decreases s.len(),
{
    if s.len() > 0 && is_digit(s[0]) {
        1 + leading_digits(s.skip(1))
    } else {
        0
    }
}

/// The length of the colour code that text starts with (escape, bracket,
/// digits, `m`), zero if it starts with none.
pub open spec fn code_len(s: Seq<char>) -> nat {
    if s.len() >= 2 && s[0] == '\x1b' && s[1] == '[' {
        let digits = leading_digits(s.skip(2));
        if 2 + digits < s.len() && s[2 + digits as int] == 'm' {
            3 + digits
        } else {
            0
        }
    } else {
        0
    }
}

/// Text without its colour codes.
pub open spec fn stripped(s: Seq<char>) -> Seq<char>
    decreases s.len(),
{
    if s.len() == 0 {
        s
    } else if code_len(s) > 0 {
        stripped(s.skip(code_len(s) as int))
    } else {
        seq![s[0]] + stripped(s.skip(1))
    }
}

/// Whether a piece of text, wherever it stands, is another one without its
/// colour codes.
pub open spec fn strips_to(colored: Seq<char>, bare: Seq<char>) -> bool {
    forall|rest: Seq<char>| #[trigger] stripped(colored + rest) == bare + stripped(rest)
}

/// Pieces can be stripped one after the other.
pub broadcast proof fn lemma_strips_add(a: Seq<char>, b: Seq<char>, x: Seq<char>, y: Seq<char>)
    requires
        strips_to(a, x),
        strips_to(b, y),
    ensures
        #[trigger] strips_to(a + b, x + y),
{
    assert forall|rest: Seq<char>| #[trigger] stripped((a + b) + rest) == (x + y) + stripped(
        rest,
    ) by {
        assert((a + b) + rest =~= a + (b + rest));
        assert(stripped(a + (b + rest)) == x + stripped(b + rest));
        assert(x + (y + stripped(rest)) =~= (x + y) + stripped(rest));
    }
}

/// Plain text stays as it is.
pub broadcast proof fn lemma_strips_plain(s: Seq<char>)
    requires
        plain(s),
    ensures
        #[trigger] strips_to(s, s),
    decreases s.len(),
{
    if s.len() == 0 {
        assert forall|rest: Seq<char>| #[trigger] stripped(s + rest) == s + stripped(rest) by {
            assert(s + rest =~= rest);
            assert(s + stripped(rest) =~= stripped(rest));
        }
    } else {
        let tail = s.skip(1);
        assert forall|i: int| 0 <= i < tail.len() implies plain_char(#[trigger] tail[i]) by {
            assert(tail[i] == s[i + 1]);
        }
        lemma_strips_plain(tail);
        assert(plain_char(s[0]));
        assert forall|rest: Seq<char>| #[trigger] stripped(s + rest) == s + stripped(rest) by {
            let all = s + rest;
            assert(all[0] == s[0]);
            assert(all.skip(1) =~= tail + rest);
            assert(stripped(tail + rest) == tail + stripped(rest));
            assert(seq![s[0]] + (tail + stripped(rest)) =~= s + stripped(rest));
        }
    }
}

/// Digits in front of something else are counted.
proof fn lemma_leading_digits(digits: Seq<char>, rest: Seq<char>)
    requires
        forall|i: int| 0 <= i < digits.len() ==> is_digit(#[trigger] digits[i]),
        rest.len() > 0,
        !is_digit(rest[0]),
    ensures
        leading_digits(digits + rest) == digits.len(),
    decreases digits.len(),
{
    let all = digits + rest;
    if digits.len() == 0 {
        assert(all =~= rest);
    } else {
        assert(is_digit(digits[0]));
        assert(all[0] == digits[0]);
        let tail = digits.skip(1);
        assert forall|i: int| 0 <= i < tail.len() implies is_digit(#[trigger] tail[i]) by {
            assert(tail[i] == digits[i + 1]);
        }
        lemma_leading_digits(tail, rest);
        assert(all.skip(1) =~= tail + rest);
    }
}

/// A colour code leaves nothing.
proof fn lemma_strips_code(code: Seq<char>)
    requires
        forall|i: int| 0 <= i < code.len() ==> is_digit(#[trigger] code[i]),
    ensures
        strips_to("\x1b["@ + code + "m"@, Seq::empty()),
{
    reveal_strlit("\x1b[");
    reveal_strlit("m");
    let whole = "\x1b["@ + code + "m"@;
    assert forall|rest: Seq<char>| #[trigger] stripped(whole + rest) == Seq::<char>::empty()
        + stripped(rest) by {
        let all = whole + rest;
        let behind = "m"@ + rest;
        assert(all.skip(2) =~= code + behind);
        lemma_leading_digits(code, behind);
        assert(all[0] == '\x1b' && all[1] == '[' && all[2 + code.len() as int] == 'm');
        assert(code_len(all) == 3 + code.len());
        assert(all.skip(3 + code.len() as int) =~= rest);
        assert(Seq::<char>::empty() + stripped(rest) =~= stripped(rest));
    }
}

/// Painted text is the text without its colour.
proof fn lemma_strips_painted(code: Seq<char>, s: Seq<char>)
    requires
        plain(s),
        forall|i: int| 0 <= i < code.len() ==> is_digit(#[trigger] code[i]),
    ensures
        strips_to(painted(true, code, s), painted(false, code, s)),
{
    reveal_strlit("0");
    reveal_strlit("m");
    reveal_strlit("\x1b[");
    reveal_strlit("\x1b[0m");
    lemma_strips_code(code);
    lemma_strips_code("0"@);
    lemma_strips_plain(s);
    let start = "\x1b["@ + code + "m"@;
    let end = "\x1b["@ + "0"@ + "m"@;
    assert(end =~= "\x1b[0m"@);
    lemma_strips_add(start, s, Seq::empty(), s);
    lemma_strips_add(start + s, end, Seq::<char>::empty() + s, Seq::empty());
    assert(Seq::<char>::empty() + s + Seq::empty() =~= s);
}

/// The codes that are used are numbers.
proof fn lemma_codes()
    ensures
        forall|i: int| 0 <= i < "32"@.len() ==> is_digit(#[trigger] "32"@[i]),
        forall|i: int| 0 <= i < "31"@.len() ==> is_digit(#[trigger] "31"@[i]),
        forall|i: int| 0 <= i < "33"@.len() ==> is_digit(#[trigger] "33"@[i]),
        forall|i: int| 0 <= i < "2"@.len() ==> is_digit(#[trigger] "2"@[i]),
{
    reveal_strlit("32");
    reveal_strlit("31");
    reveal_strlit("33");
    reveal_strlit("2");
}

proof fn lemma_strips_mark(change: HopChange)
    ensures
        strips_to(change_mark(true, change), change_mark(false, change)),
{
    broadcast use {lemma_strips_add, lemma_strips_plain, lemma_plain_spaces};

    reveal_strlit("[path]");
    reveal_strlit("[added]");
    reveal_strlit("[lost]");
    assert(plain("[path]"@));
    assert(plain("[added]"@));
    assert(plain("[lost]"@));
    lemma_codes();
    lemma_strips_painted("33"@, "[path]"@);
    lemma_strips_painted("32"@, "[added]"@);
    lemma_strips_painted("31"@, "[lost]"@);
}

proof fn lemma_strips_hop_line(width: nat, hop: HopDiffView)
    ensures
        strips_to(hop_line(true, width, hop), hop_line(false, width, hop)),
{
    broadcast use {
        lemma_strips_add,
        lemma_strips_plain,
        lemma_plain_add,
        lemma_plain_decimal,
        lemma_plain_left,
        lemma_plain_right,
    };

    reveal_strlit(" ");
    reveal_strlit("  ");
    reveal_strlit("\n");
    reveal_strlit(" \u{2192} ");
    assert(plain(" "@));
    assert(plain("  "@));
    assert(plain("\n"@));
    assert(plain(" \u{2192} "@));
    lemma_plain_label(hop.before);
    lemma_plain_label(hop.after);
    lemma_strips_mark(hop.change);
    let times = rtt_text(hop.before) + " \u{2192} "@ + rtt_text(hop.after);
    assert(plain(times));
    lemma_codes();
    lemma_strips_painted("33"@, times);
    assert(strips_to(rtt_cell(true, hop), rtt_cell(false, hop)));
}

/// Whether each text is the other one without its colour codes.
spec fn all_strip(colored: Seq<Seq<char>>, bare: Seq<Seq<char>>) -> bool {
    colored.len() == bare.len() && forall|i: int|
        0 <= i < colored.len() ==> strips_to(#[trigger] colored[i], bare[i])
}

proof fn lemma_strips_joined(colored: Seq<Seq<char>>, bare: Seq<Seq<char>>, sep: Seq<char>)
    requires
        all_strip(colored, bare),
        plain(sep),
    ensures
        strips_to(joined(colored, sep), joined(bare, sep)),
    decreases colored.len(),
{
    broadcast use {lemma_strips_add, lemma_strips_plain};

    if colored.len() == 0 {
        assert(plain(Seq::<char>::empty()));
    } else if colored.len() == 1 {
        assert(strips_to(colored[0], bare[0]));
    } else {
        let more = colored.skip(1);
        let less = bare.skip(1);
        assert forall|i: int| 0 <= i < more.len() implies strips_to(#[trigger] more[i], less[i]) by {
            assert(strips_to(colored[i + 1], bare[i + 1]));
        }
        lemma_strips_joined(more, less, sep);
        assert(strips_to(colored[0], bare[0]));
    }
}

proof fn lemma_strips_signed(code: Seq<char>, sign: Seq<char>, addresses: Seq<AddressView>)
    requires
        plain(sign),
        forall|i: int| 0 <= i < code.len() ==> is_digit(#[trigger] code[i]),
    ensures
        all_strip(signed(true, code, sign, addresses), signed(false, code, sign, addresses)),
{
    let colored = signed(true, code, sign, addresses);
    let bare = signed(false, code, sign, addresses);
    assert forall|i: int| 0 <= i < colored.len() implies strips_to(
        #[trigger] colored[i],
        bare[i],
    ) by {
        let shown = sanitized(addresses[i].text);
        lemma_plain_sanitized(addresses[i].text);
        lemma_plain_add(sign, shown);
        lemma_strips_painted(code, sign + shown);
    }
}

proof fn lemma_strips_responder_line(hop: HopDiffView)
    ensures
        strips_to(responder_line(true, hop), responder_line(false, hop)),
{
    broadcast use {lemma_strips_add, lemma_strips_plain};

    reveal_strlit("      responders: ");
    reveal_strlit("  ");
    reveal_strlit("\n");
    reveal_strlit("+");
    reveal_strlit("-");
    assert(plain("      responders: "@));
    assert(plain("  "@));
    assert(plain("\n"@));
    assert(plain("+"@));
    assert(plain("-"@));
    assert(plain(Seq::<char>::empty()));
    lemma_codes();
    lemma_strips_signed("32"@, "+"@, hop.responders_added);
    lemma_strips_signed("31"@, "-"@, hop.responders_removed);
    let a = signed(true, "32"@, "+"@, hop.responders_added);
    let b = signed(true, "31"@, "-"@, hop.responders_removed);
    let x = signed(false, "32"@, "+"@, hop.responders_added);
    let y = signed(false, "31"@, "-"@, hop.responders_removed);
    assert forall|i: int| 0 <= i < (a + b).len() implies strips_to(
        #[trigger] (a + b)[i],
        (x + y)[i],
    ) by {
        if i < a.len() {
            assert(strips_to(a[i], x[i]));
        } else {
            assert(strips_to(b[i - a.len()], y[i - a.len()]));
        }
    }
    lemma_strips_joined(a + b, x + y, "  "@);
}

proof fn lemma_strips_table(width: nat, hops: Seq<HopDiffView>, n: nat)
    requires
        n <= hops.len(),
    ensures
        strips_to(table(true, width, hops, n), table(false, width, hops, n)),
    decreases n,
{
    broadcast use {lemma_strips_add, lemma_strips_plain};

    if n == 0 {
        assert(plain(Seq::<char>::empty()));
    } else {
        lemma_strips_table(width, hops, (n - 1) as nat);
        lemma_strips_hop_line(width, hops[n - 1]);
        lemma_strips_responder_line(hops[n - 1]);
    }
}

proof fn lemma_strips_summary(hops: Seq<HopDiffView>)
    ensures
        strips_to(summary(true, hops), summary(false, hops)),
{
    broadcast use {lemma_strips_add, lemma_strips_plain};

    if any_changed(hops) {
        lemma_plain_summary(hops);
    } else {
        reveal_strlit("\nSummary: ");
        reveal_strlit("no changes detected");
        reveal_strlit("\n");
        assert(plain("\nSummary: "@));
        assert(plain("no changes detected"@));
        assert(plain("\n"@));
        lemma_codes();
        lemma_strips_painted("2"@, "no changes detected"@);
    }
}

proof fn lemma_strips_reached(diff: SessionDiff)
    ensures
        strips_to(reached_text(true, diff), reached_text(false, diff)),
{
    broadcast use lemma_strips_plain;

    lemma_plain_reached(diff);
    lemma_codes();
    if diff.complete_before && !diff.complete_after {
        lemma_strips_painted("31"@, reached_text(false, diff));
    } else if !diff.complete_before && diff.complete_after {
        lemma_strips_painted("32"@, reached_text(false, diff));
    } else if !diff.complete_before {
        lemma_strips_painted("2"@, reached_text(false, diff));
    }
}

/// Colours add nothing but their codes: without them the coloured comparison
/// is the plain one, so that its columns stand where they should.
pub proof fn law_colours_only_add_codes(diff: SessionDiff)
    requires
        plain(utc_text(diff.started_before, READABLE@)),
        plain(utc_text(diff.started_after, READABLE@)),
    ensures
        stripped(diff_text(diff, true)) == diff_text(diff, false),
{
    broadcast use {lemma_strips_add, lemma_strips_plain};

    let hops = diff_views(diff.hops@);
    let width = host_width(hops);
    lemma_plain_preamble(diff);
    lemma_plain_columns(width);
    lemma_strips_table(width, hops, hops.len());
    lemma_strips_summary(hops);
    lemma_strips_reached(diff);
    reveal_strlit("  ");
    reveal_strlit("\n");
    assert(plain("  "@));
    assert(plain("\n"@));
    let colored = diff_text(diff, true);
    let bare = diff_text(diff, false);
    assert(strips_to(colored, bare));
    let none = Seq::<char>::empty();
    assert(stripped(colored + none) == bare + stripped(none));
    assert(colored + none =~= colored);
    assert(bare + stripped(none) =~= bare);
}

} // verus!
