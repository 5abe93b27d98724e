//! Comma-separated values.

use crate::session::{Figures, Hop, Session};
use crate::text::{
    contains_char, copy_of, decimal, decimal_string, join, joined, push_text, replace_char,
    replaced, texts,
};
use vstd::prelude::*;

verus! {

/// The header line.
pub const HEADER: &'static str =
    "ttl,ip,hostname,loss_pct,sent,recv,last_ms,avg_ms,min_ms,max_ms,stddev_ms,jitter_ms,jitter_avg_ms,jitter_max_ms\n";

/// Whether text cannot stand in a cell as it is.
pub open spec fn needs_quotes(s: Seq<char>) -> bool {
    s.contains(',') || s.contains('"') || s.contains('\n') || s.contains('\r')
}

/// Text as a cell: quoted if need be, with quotes doubled.
pub open spec fn escaped(s: Seq<char>) -> Seq<char> {
    if needs_quotes(s) {
        seq!['"'] + replaced(s, '"', seq!['"', '"']) + seq!['"']
    } else {
        s
    }
}

/// Escapes text for a cell (quotes it if it holds a comma, a quote, a newline
/// or a carriage return).
pub fn escape_csv(s: &str) -> (r: String)
    ensures
        r@ == escaped(s@),
{
    if contains_char(s, ',') || contains_char(s, '"') || contains_char(s, '\n') || contains_char(
        s,
        '\r',
    ) {
        let doubled: String = replace_char(s, '"', "\"\"");
        let mut out: String = String::new();
        out.push('"');
        push_text(&mut out, doubled.as_str());
        out.push('"');
        proof {
            reveal_strlit("\"\"");
            assert("\"\""@ =~= seq!['"', '"']);
            assert(out@ =~= escaped(s@));
        }
        out
    } else {
        copy_of(s)
    }
}

/// The cells of figures: all empty where nothing was received.
pub open spec fn figure_cells(figures: Option<Figures>) -> Seq<Seq<char>> {
    match figures {
        Some(f) => seq![
            match f.last {
                Some(t) => t@,
                None => Seq::empty(),
            },
            f.avg@,
            f.min@,
            f.max@,
            f.stddev@,
            f.jitter@,
            f.jitter_avg@,
            f.jitter_max@,
        ],
        None => Seq::new(8, |i: int| Seq::empty()),
    }
}

/// The figures of a hop, if its responder has answered.
pub open spec fn hop_figures(hop: Hop) -> Option<Figures> {
    match hop.shown() {
        Some(stats) => if stats.received > 0 {
            Some(stats.figures)
        } else {
            None
        },
        None => None,
    }
}

/// The host name of a hop, empty if unknown.
pub open spec fn hop_name(hop: Hop) -> Seq<char> {
    match hop.shown() {
        Some(stats) => match stats.hostname {
            Some(name) => name@,
            None => Seq::empty(),
        },
        None => Seq::empty(),
    }
}

/// The address of a hop, a star if unknown.
pub open spec fn hop_ip(hop: Hop) -> Seq<char> {
    match hop.shown() {
        Some(stats) => stats.address.text@,
        None => "*"@,
    }
}

/// The cells of a hop.
pub open spec fn cells(hop: Hop) -> Seq<Seq<char>> {
    seq![
        decimal(hop.ttl as nat),
        hop_ip(hop),
        escaped(hop_name(hop)),
        hop.loss@,
        decimal(hop.sent as nat),
        decimal(hop.received as nat),
    ] + figure_cells(hop_figures(hop))
}

/// The line of a hop.
pub open spec fn row(hop: Hop) -> Seq<char> {
    joined(cells(hop), ","@).push('\n')
}

/// The lines of those of the first `n` hops that are listed.
pub open spec fn rows(session: Session, n: nat) -> Seq<char>
    decreases n,
{
    if n == 0 {
        Seq::empty()
    } else if session.lists(session.hops@[n - 1]) {
        rows(session, (n - 1) as nat) + row(session.hops@[n - 1])
    } else {
        rows(session, (n - 1) as nat)
    }
}

/// A session as comma-separated values.
pub open spec fn csv(session: Session) -> Seq<char> {
    HEADER@ + rows(session, session.hops@.len())
}

/// The line of a hop.
fn csv_row(hop: &Hop) -> (r: String)
    ensures
        r@ == row(*hop),
{
    let mut parts: Vec<String> = Vec::new();
    parts.push(decimal_string(hop.ttl as u64));
    match hop.primary_stats() {
        Some(stats) => {
            parts.push(copy_of(stats.address.text.as_str()));
            parts.push(
                match &stats.hostname {
                    Some(name) => escape_csv(name.as_str()),
                    None => escape_csv(""),
                },
            );
        },
        None => {
            parts.push(copy_of("*"));
            parts.push(escape_csv(""));
        },
    }
    proof {
        reveal_strlit("");
        assert(""@ =~= Seq::<char>::empty());
    }
    parts.push(copy_of(hop.loss.as_str()));
    parts.push(decimal_string(hop.sent));
    parts.push(decimal_string(hop.received));
    let ghost six = cells(*hop).take(6);
    assert(texts(parts@) =~= six);
    let mut answered: bool = false;
    if let Some(stats) = hop.primary_stats() {
        if stats.received > 0 {
            answered = true;
            let f: &Figures = &stats.figures;
            parts.push(
                match &f.last {
                    Some(t) => copy_of(t.as_str()),
                    None => copy_of(""),
                },
            );
            parts.push(copy_of(f.avg.as_str()));
            parts.push(copy_of(f.min.as_str()));
            parts.push(copy_of(f.max.as_str()));
            parts.push(copy_of(f.stddev.as_str()));
            parts.push(copy_of(f.jitter.as_str()));
            parts.push(copy_of(f.jitter_avg.as_str()));
            parts.push(copy_of(f.jitter_max.as_str()));
            assert(texts(parts@) =~= cells(*hop));
        }
    }
    if !answered {
        let mut i: usize = 0;
        while i < 8
            invariant
                i <= 8,
                ""@ == Seq::<char>::empty(),
                texts(parts@) =~= six + Seq::new(i as nat, |k: int| Seq::<char>::empty()),
            decreases 8 - i,
        {
            let ghost before = texts(parts@);
            parts.push(copy_of(""));
            assert(texts(parts@) =~= before.push(Seq::empty()));
            i = i + 1;
        }
        assert(texts(parts@) =~= cells(*hop));
    }
    let mut line: String = join(&parts, ",");
    line.push('\n');
    line
}

/// Appends a session as comma-separated values.
pub fn export_csv(session: &Session, writer: &mut String)
    ensures
        final(writer)@ == old(writer)@ + csv(*session),
{
    let ghost start = writer@;
    push_text(writer, HEADER);
    let mut i: usize = 0;
    assert(writer@ =~= start + (HEADER@ + rows(*session, 0)));
    while i < session.hops.len()
        invariant
            i <= session.hops.len(),
            writer@ == start + (HEADER@ + rows(*session, i as nat)),
        decreases session.hops.len() - i,
    {
        let hop: &Hop = &session.hops[i];
        if session.is_listed(hop) {
            let line: String = csv_row(hop);
            push_text(writer, line.as_str());
            assert(writer@ =~= start + (HEADER@ + rows(*session, (i + 1) as nat)));
        }
        i = i + 1;
    }
}

/// The cells of a line, from a place in it on: `current` is the cell so far,
/// `quoted` whether a quote is open.
pub open spec fn scanned(line: Seq<char>, current: Seq<char>, quoted: bool) -> Seq<Seq<char>>
    decreases line.len(),
{
    if line.len() == 0 {
        seq![current]
    } else if line[0] == '"' && quoted {
        if line.len() > 1 && line[1] == '"' {
            scanned(line.skip(2), current.push('"'), true)
        } else {
            scanned(line.skip(1), current, false)
        }
    } else if line[0] == '"' {
        scanned(line.skip(1), current, true)
    } else if line[0] == ',' && !quoted {
        seq![current] + scanned(line.skip(1), Seq::empty(), false)
    } else {
        scanned(line.skip(1), current.push(line[0]), quoted)
    }
}

/// Reads the cells of a line; commas inside quotes do not separate.
pub fn parse_csv_row(line: &str) -> (r: Vec<String>)
    ensures
        texts(r@) == scanned(line@, Seq::empty(), false),
{
    let chars: Vec<char> = crate::text::chars_of(line);
    let mut fields: Vec<String> = Vec::new();
    let mut current: String = String::new();
    let mut quoted: bool = false;
    let mut i: usize = 0;
    let ghost all = scanned(line@, Seq::empty(), false);
    proof {
        assert(chars@.skip(0) =~= chars@);
        assert(current@ =~= Seq::empty());
        assert(all =~= texts(fields@) + all);
    }
    while i < chars.len()
        invariant
            i <= chars.len(),
            all == texts(fields@) + scanned(chars@.skip(i as int), current@, quoted),
        decreases chars.len() - i,
    {
        let c: char = chars[i];
        let ghost rest = chars@.skip(i as int);
        proof {
            assert(rest[0] == c);
            assert(rest.skip(1) =~= chars@.skip(i + 1));
            if i + 1 < chars.len() {
                assert(rest[1] == chars@[i + 1]);
                assert(rest.skip(2) =~= chars@.skip(i + 2));
            }
        }
        if c == '"' && quoted {
            if i + 1 < chars.len() && chars[i + 1] == '"' {
                current.push('"');
                i = i + 1;
            } else {
                quoted = false;
            }
        } else if c == '"' {
            quoted = true;
        } else if c == ',' && !quoted {
            let ghost before = texts(fields@);
            let ghost cell = current@;
            fields.push(current);
            current = String::new();
            proof {
                assert(current@ =~= Seq::empty());
                assert(texts(fields@) =~= before.push(cell));
                assert(before + (seq![cell] + scanned(rest.skip(1), Seq::empty(), false))
                    =~= texts(fields@) + scanned(rest.skip(1), Seq::empty(), false));
            }
        } else {
            current.push(c);
        }
        i = i + 1;
    }
    let ghost before = texts(fields@);
    let ghost cell = current@;
    fields.push(current);
    assert(texts(fields@) =~= before + seq![cell]);
    fields
}

/// A cell and what follows it is read as that cell.
proof fn lemma_cell_read(s: Seq<char>, rest: Seq<char>)
    requires
        rest.len() == 0 || rest[0] == ',',
    ensures
        scanned(escaped(s) + rest, Seq::empty(), false) == scanned(rest, s, false),
{
    if needs_quotes(s) {
        let doubled = replaced(s, '"', seq!['"', '"']);
        let line = escaped(s) + rest;
        assert(line[0] == '"');
        assert(line.skip(1) =~= doubled + (seq!['"'] + rest));
        lemma_quoted_read(s, seq!['"'] + rest, Seq::empty());
        assert(Seq::empty() + s =~= s);
        let tail = seq!['"'] + rest;
        assert(tail.skip(1) =~= rest);
        assert(rest.len() > 0 ==> tail[1] == ',');
    } else {
        assert forall|i: int| 0 <= i < s.len() implies s[i] != ',' && s[i] != '"' by {
            assert(s.contains(s[i]));
        }
        lemma_plain_read(s, rest, Seq::empty());
        assert(Seq::empty() + s =~= s);
    }
}

/// Text without commas and quotes is read as it is.
proof fn lemma_plain_read(s: Seq<char>, rest: Seq<char>, current: Seq<char>)
    requires
        forall|i: int| 0 <= i < s.len() ==> s[i] != ',' && s[i] != '"',
    ensures
        scanned(s + rest, current, false) == scanned(rest, current + s, false),
    decreases s.len(),
{
    if s.len() == 0 {
        assert(s + rest =~= rest);
        assert(current + s =~= current);
    } else {
        assert((s + rest).skip(1) =~= s.skip(1) + rest);
        lemma_plain_read(s.skip(1), rest, current.push(s[0]));
        assert(current.push(s[0]) + s.skip(1) =~= current + s);
    }
}

/// Text with doubled quotes is read, inside quotes, with single ones.
proof fn lemma_quoted_read(s: Seq<char>, rest: Seq<char>, current: Seq<char>)
    ensures
        scanned(replaced(s, '"', seq!['"', '"']) + rest, current, true) == scanned(
            rest,
            current + s,
            true,
        ),
    decreases s.len(),
{
    let q = seq!['"', '"'];
    if s.len() == 0 {
        assert(replaced(s, '"', q) + rest =~= rest);
        assert(current + s =~= current);
    } else {
        let c = s.last();
        let head = s.drop_last();
        if c == '"' {
            let tail = q + rest;
            assert(replaced(s, '"', q) + rest =~= replaced(head, '"', q) + tail);
            lemma_quoted_read(head, tail, current);
            assert(tail[0] == '"' && tail[1] == '"');
            assert(tail.skip(2) =~= rest);
            assert((current + head).push('"') =~= current + s);
        } else {
            let tail = seq![c] + rest;
            assert(replaced(s, '"', q) + rest =~= replaced(head, '"', q) + tail);
            lemma_quoted_read(head, tail, current);
            assert(tail[0] == c);
            assert(tail.skip(1) =~= rest);
            assert((current + head).push(c) =~= current + s);
        }
    }
}

/// Each text escaped for a cell.
pub open spec fn escaped_all(values: Seq<Seq<char>>) -> Seq<Seq<char>> {
    Seq::new(values.len(), |i: int| escaped(values[i]))
}

/// Whatever the values are, a line of escaped cells is read back as the
/// values.
pub proof fn law_cells_round_trip(values: Seq<Seq<char>>)
    requires
        values.len() > 0,
    ensures
        scanned(joined(escaped_all(values), ","@), Seq::empty(), false) == values,
    decreases values.len(),
{
    reveal_strlit(",");
    assert(","@ =~= seq![',']);
    let cells = escaped_all(values);
    if values.len() == 1 {
        lemma_cell_read(values[0], Seq::empty());
        assert(cells[0] + Seq::empty() =~= cells[0]);
        assert(seq![values[0]] =~= values);
    } else {
        let more = joined(cells.skip(1), ","@);
        let rest = ","@ + more;
        assert(cells[0] + ","@ + more =~= cells[0] + rest);
        lemma_cell_read(values[0], rest);
        assert(rest.skip(1) =~= more);
        assert(cells.skip(1) =~= escaped_all(values.skip(1)));
        law_cells_round_trip(values.skip(1));
        assert(seq![values[0]] + values.skip(1) =~= values);
    }
}

/// The values that the line of a hop shows.
pub open spec fn values(hop: Hop) -> Seq<Seq<char>> {
    cells(hop).update(2, hop_name(hop))
}

/// The line of a hop has as many cells as the header, and the host name is
/// read back from it, whatever characters it holds. (The other cells are
/// numbers and addresses, which need no quotes.)
pub proof fn law_row_round_trip(hop: Hop)
    requires
        forall|i: int| 0 <= i < 14 && i != 2 ==> !needs_quotes(#[trigger] cells(hop)[i]),
    ensures
        cells(hop).len() == 14,
        scanned(row(hop).drop_last(), Seq::empty(), false) == values(hop),
{
    assert(cells(hop) =~= escaped_all(values(hop))) by {
        assert forall|i: int| 0 <= i < 14 implies cells(hop)[i] == escaped(values(hop)[i]) by {
            if i != 2 {
                assert(!needs_quotes(cells(hop)[i]));
            }
        }
    }
    law_cells_round_trip(values(hop));
    assert(row(hop).drop_last() =~= joined(cells(hop), ","@));
}

/// The names of the columns, as the header line gives them.
pub open spec fn column_names() -> Seq<Seq<char>> {
    scanned(HEADER@.drop_last(), Seq::empty(), false)
}

/// The header line ends with a newline and names fourteen different columns.
pub proof fn law_header_names_columns()
    ensures
        HEADER@.last() == '\n',
        column_names() == seq![
            "ttl"@,
            "ip"@,
            "hostname"@,
            "loss_pct"@,
            "sent"@,
            "recv"@,
            "last_ms"@,
            "avg_ms"@,
            "min_ms"@,
            "max_ms"@,
            "stddev_ms"@,
            "jitter_ms"@,
            "jitter_avg_ms"@,
            "jitter_max_ms"@,
        ],
{
    reveal_strlit(
        "ttl,ip,hostname,loss_pct,sent,recv,last_ms,avg_ms,min_ms,max_ms,stddev_ms,jitter_ms,jitter_avg_ms,jitter_max_ms\n",
    );
    reveal_strlit("ttl");
    reveal_strlit("ip");
    reveal_strlit("hostname");
    reveal_strlit("loss_pct");
    reveal_strlit("sent");
    reveal_strlit("recv");
    reveal_strlit("last_ms");
    reveal_strlit("avg_ms");
    reveal_strlit("min_ms");
    reveal_strlit("max_ms");
    reveal_strlit("stddev_ms");
    reveal_strlit("jitter_ms");
    reveal_strlit("jitter_avg_ms");
    reveal_strlit("jitter_max_ms");
    reveal_strlit(",");
    let names = seq![
        "ttl"@,
        "ip"@,
        "hostname"@,
        "loss_pct"@,
        "sent"@,
        "recv"@,
        "last_ms"@,
        "avg_ms"@,
        "min_ms"@,
        "max_ms"@,
        "stddev_ms"@,
        "jitter_ms"@,
        "jitter_avg_ms"@,
        "jitter_max_ms"@,
    ];
    assert forall|i: int| 0 <= i < 14 implies !needs_quotes(#[trigger] names[i]) by {}
    assert(escaped_all(names) =~= names);
    law_cells_round_trip(names);
    reveal_with_fuel(joined, 15);
    assert(HEADER@.drop_last() =~= joined(names, ","@));
}

/// Whether, in these cells, the one under the column of this name, and no
/// other, is this text.
pub open spec fn under(cells: Seq<Seq<char>>, name: Seq<char>, text: Seq<char>) -> bool {
    &&& cells.len() == column_names().len()
    &&& column_names().contains(name)
    &&& forall|i: int|
        0 <= i < cells.len() && #[trigger] column_names()[i] == name ==> cells[i] == text
}

/// Columns of different names are different columns.
proof fn lemma_under(cells: Seq<Seq<char>>, i: int)
    requires
        cells.len() == 14,
        0 <= i < 14,
    ensures
        under(cells, column_names()[i], cells[i]),
{
    law_header_names_columns();
    reveal_strlit("ttl");
    reveal_strlit("ip");
    reveal_strlit("hostname");
    reveal_strlit("loss_pct");
    reveal_strlit("sent");
    reveal_strlit("recv");
    reveal_strlit("last_ms");
    reveal_strlit("avg_ms");
    reveal_strlit("min_ms");
    reveal_strlit("max_ms");
    reveal_strlit("stddev_ms");
    reveal_strlit("jitter_ms");
    reveal_strlit("jitter_avg_ms");
    reveal_strlit("jitter_max_ms");
    assert forall|j: int| 0 <= j < 14 && #[trigger] column_names()[j] == column_names()[i] implies j
        == i by {
        assert(column_names()[j].len() == column_names()[i].len());
        assert(column_names()[j][0] == column_names()[i][0]);
        if j != i {
            assert(column_names()[j][1] == column_names()[i][1]);
            assert(column_names()[j][7] == column_names()[i][7]);
        }
    }
}

/// Each cell of a hop stands under the name of what it shows. The figures of
/// a hop whose responder has answered stand under their own names; those of
/// any other hop are left empty.
pub proof fn law_cells_under_their_names(hop: Hop)
    ensures
        under(cells(hop), "ttl"@, decimal(hop.ttl as nat)),
        under(cells(hop), "loss_pct"@, hop.loss@),
        under(cells(hop), "sent"@, decimal(hop.sent as nat)),
        under(cells(hop), "recv"@, decimal(hop.received as nat)),
        match hop.shown() {
            Some(stats) => under(cells(hop), "ip"@, stats.address.text@) && under(
                cells(hop),
                "hostname"@,
                match stats.hostname {
                    Some(name) => escaped(name@),
                    None => Seq::empty(),
                },
            ),
            None => under(cells(hop), "ip"@, "*"@) && under(
                cells(hop),
                "hostname"@,
                Seq::empty(),
            ),
        },
        match hop.shown() {
            Some(stats) if stats.received > 0 => {
                let f = stats.figures;
                &&& under(
                    cells(hop),
                    "last_ms"@,
                    match f.last {
                        Some(text) => text@,
                        None => Seq::empty(),
                    },
                )
                &&& under(cells(hop), "avg_ms"@, f.avg@)
                &&& under(cells(hop), "min_ms"@, f.min@)
                &&& under(cells(hop), "max_ms"@, f.max@)
                &&& under(cells(hop), "stddev_ms"@, f.stddev@)
                &&& under(cells(hop), "jitter_ms"@, f.jitter@)
                &&& under(cells(hop), "jitter_avg_ms"@, f.jitter_avg@)
                &&& under(cells(hop), "jitter_max_ms"@, f.jitter_max@)
            },
            _ => {
                &&& under(cells(hop), "last_ms"@, Seq::empty())
                &&& under(cells(hop), "avg_ms"@, Seq::empty())
                &&& under(cells(hop), "min_ms"@, Seq::empty())
                &&& under(cells(hop), "max_ms"@, Seq::empty())
                &&& under(cells(hop), "stddev_ms"@, Seq::empty())
                &&& under(cells(hop), "jitter_ms"@, Seq::empty())
                &&& under(cells(hop), "jitter_avg_ms"@, Seq::empty())
                &&& under(cells(hop), "jitter_max_ms"@, Seq::empty())
            },
        },
{
    law_header_names_columns();
    assert forall|i: int| 0 <= i < 14 implies under(
        cells(hop),
        #[trigger] column_names()[i],
        cells(hop)[i],
    ) by {
        lemma_under(cells(hop), i);
    }
    assert(column_names()[0] == "ttl"@);
    assert(column_names()[1] == "ip"@);
    assert(column_names()[2] == "hostname"@);
    assert(column_names()[3] == "loss_pct"@);
    assert(column_names()[4] == "sent"@);
    assert(column_names()[5] == "recv"@);
    assert(column_names()[6] == "last_ms"@);
    assert(column_names()[7] == "avg_ms"@);
    assert(column_names()[8] == "min_ms"@);
    assert(column_names()[9] == "max_ms"@);
    assert(column_names()[10] == "stddev_ms"@);
    assert(column_names()[11] == "jitter_ms"@);
    assert(column_names()[12] == "jitter_avg_ms"@);
    assert(column_names()[13] == "jitter_max_ms"@);
    assert(escaped(Seq::<char>::empty()) =~= Seq::<char>::empty());
}

/// The lines of hops, one after the other.
pub open spec fn lines_of(hops: Seq<Hop>) -> Seq<char>
    decreases hops.len(),
{
    if hops.len() == 0 {
        Seq::empty()
    } else {
        lines_of(hops.drop_last()) + row(hops.last())
    }
}

/// The first hops that a session lists: those that were probed, up to the
/// target where its distance is known, else up to the largest TTL.
pub open spec fn first_listed(session: Session, n: int) -> Seq<Hop> {
    session.hops@.take(n).filter(
        |hop: Hop|
            hop.sent > 0 && match session.dest_ttl {
                Some(ttl) => hop.ttl <= ttl,
                None => hop.ttl <= session.config.max_ttl,
            },
    )
}

/// The lines that are written are those of the listed hops, in their order.
proof fn lemma_listed_lines(session: Session, n: nat)
    requires
        n <= session.hops@.len(),
    ensures
        rows(session, n) == lines_of(first_listed(session, n as int)),
    decreases n,
{
    broadcast use vstd::seq_lib::group_filter_ensures;

    reveal(Seq::filter);
    let hops = session.hops@;
    if n > 0 {
        lemma_listed_lines(session, (n - 1) as nat);
        assert(hops.take(n as int).drop_last() =~= hops.take(n - 1));
        let before = first_listed(session, n - 1);
        let hop = hops[n - 1];
        assert(hops.take(n as int).last() == hop);
        if session.lists(hop) {
            assert(first_listed(session, n as int) =~= before.push(hop));
            assert(before.push(hop).drop_last() =~= before);
        } else {
            assert(first_listed(session, n as int) =~= before);
        }
    } else {
        assert(hops.take(0) =~= Seq::empty());
        assert(first_listed(session, 0) =~= Seq::empty());
    }
}

/// What is exported is the header and then one line for each hop that was
/// probed and is not behind the target, in the order of the hops.
pub proof fn law_listed_hops_exported(session: &Session, writer: &mut String)
    requires
        call_ensures(export_csv, (session, writer), ()),
    ensures
        final(writer)@ == old(writer)@ + HEADER@ + lines_of(
            first_listed(*session, session.hops@.len() as int),
        ),
{
    lemma_listed_lines(*session, session.hops@.len());
    assert(final(writer)@ =~= old(writer)@ + HEADER@ + rows(*session, session.hops@.len()));
}

/// Whatever text is escaped for a cell is read back from a line of one cell.
pub proof fn law_escaped_cell_read_back(s: &str, cell: String, line: &str, r: Vec<String>)
    requires
        call_ensures(escape_csv, (s,), cell),
        call_ensures(parse_csv_row, (line,), r),
        line@ == cell@,
    ensures
        texts(r@) == seq![s@],
{
    let values = seq![s@];
    assert(escaped_all(values) =~= seq![cell@]);
    law_cells_round_trip(values);
    assert(joined(seq![cell@], ","@) == cell@);
}

/// Text without commas, quotes and line ends needs no quotes.
pub proof fn law_plain_cells_stay(s: &str, cell: String)
    requires
        call_ensures(escape_csv, (s,), cell),
        forall|i: int|
            0 <= i < s@.len() ==> #[trigger] s@[i] != ',' && s@[i] != '"' && s@[i] != '\n' && s@[i]
                != '\r',
    ensures
        cell@ == s@,
{
}

/// The line of a hop, read back, has under each column what the hop has
/// there, the name of the host as it is, whatever characters it holds.
pub proof fn law_row_under_header(hop: Hop)
    requires
        forall|i: int| 0 <= i < 14 && i != 2 ==> !needs_quotes(#[trigger] cells(hop)[i]),
    ensures
        ({
            let read = scanned(row(hop).drop_last(), Seq::empty(), false);
            &&& row(hop).last() == '\n'
            &&& read.len() == column_names().len()
            &&& hop.shown() matches Some(stats) ==> (stats.hostname matches Some(name) ==> under(
                read,
                "hostname"@,
                name@,
            )) && under(read, "ip"@, stats.address.text@) && (stats.received > 0 ==> under(
                read,
                "min_ms"@,
                stats.figures.min@,
            ) && under(read, "max_ms"@, stats.figures.max@) && under(
                read,
                "avg_ms"@,
                stats.figures.avg@,
            ) && under(read, "stddev_ms"@, stats.figures.stddev@) && under(
                read,
                "jitter_ms"@,
                stats.figures.jitter@,
            ) && under(read, "jitter_avg_ms"@, stats.figures.jitter_avg@) && under(
                read,
                "jitter_max_ms"@,
                stats.figures.jitter_max@,
            ))
        }),
{
    law_row_round_trip(hop);
    law_header_names_columns();
    let read = scanned(row(hop).drop_last(), Seq::empty(), false);
    assert(read.len() == 14);
    assert forall|i: int| 0 <= i < 14 implies under(
        read,
        #[trigger] column_names()[i],
        read[i],
    ) by {
        lemma_under(read, i);
    }
    assert(column_names()[1] == "ip"@);
    assert(column_names()[2] == "hostname"@);
    assert(column_names()[7] == "avg_ms"@);
    assert(column_names()[8] == "min_ms"@);
    assert(column_names()[9] == "max_ms"@);
    assert(column_names()[10] == "stddev_ms"@);
    assert(column_names()[11] == "jitter_ms"@);
    assert(column_names()[12] == "jitter_avg_ms"@);
    assert(column_names()[13] == "jitter_max_ms"@);
}

} // verus!
